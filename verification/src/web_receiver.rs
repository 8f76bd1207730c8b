//! The browser bridge: frames of the extension come in, JSON datagrams with
//! the browser's pid go out.

use crate::json::{
    as_object_mut, from_slice, insert_member, number_value, to_vec,
};
#[allow(unused_imports)]
use crate::json::{
    decimal, document_text, is_string_or_u32, nesting, object_text, parsed_document, reads_back,
    value_document, JsonDocument, JsonObject,
};
use vstd::prelude::*;

verus! {

/// Largest body that a frame may announce.
pub const NUM_MAX_FRAME_BYTES: usize = 1048576;

/// Name of the member that carries the browser's pid.
pub const STR_BROWSER_PID_KEY: &'static str = "browser_pid";

/// Bytes that announce a frame's length.
pub const NUM_HEADER_BYTES: usize = 4;

/// Why the stream of frames cannot go on.
#[derive(Debug, Clone, PartialEq, Eq)]
pub enum FrameError {
    /// The length could not be read; `cause` is the message of the failure.
    ReadLength { cause: String },
    /// The stream ended inside the length, after `num_read` of its bytes.
    TruncatedLength { num_read: usize },
    /// The announced length is over the limit.
    TooLong { num_len: usize },
    /// The body could not be read; `cause` is the message of the failure.
    ReadBody { cause: String },
    /// The stream ended inside the body, after `num_read` of its bytes.
    TruncatedBody { num_read: usize },
}

pub enum FrameErrorView {
    ReadLength { cause: Seq<char> },
    TruncatedLength { num_read: usize },
    TooLong { num_len: usize },
    ReadBody { cause: Seq<char> },
    TruncatedBody { num_read: usize },
}

impl View for FrameError {
    type V = FrameErrorView;

    open spec fn view(&self) -> FrameErrorView {
        match self {
            FrameError::ReadLength { cause } => FrameErrorView::ReadLength { cause: cause@ },
            FrameError::TruncatedLength { num_read } => FrameErrorView::TruncatedLength {
                num_read: *num_read,
            },
            FrameError::TooLong { num_len } => FrameErrorView::TooLong { num_len: *num_len },
            FrameError::ReadBody { cause } => FrameErrorView::ReadBody { cause: cause@ },
            FrameError::TruncatedBody { num_read } => FrameErrorView::TruncatedBody {
                num_read: *num_read,
            },
        }
    }
}

/// What reading an exact number of bytes came to.
#[derive(Debug)]
pub enum ReadOutcome {
    Filled(Vec<u8>),
    /// The stream ended after `num_read` bytes.
    UnexpectedEof { num_read: usize },
    /// Reading failed; `cause` is the message of the failure.
    Failed { cause: String },
}

pub enum ReadOutcomeView {
    Filled(Seq<u8>),
    UnexpectedEof { num_read: usize },
    Failed { cause: Seq<char> },
}

impl View for ReadOutcome {
    type V = ReadOutcomeView;

    open spec fn view(&self) -> ReadOutcomeView {
        match self {
            ReadOutcome::Filled(buf) => ReadOutcomeView::Filled(buf@),
            ReadOutcome::UnexpectedEof { num_read } => ReadOutcomeView::UnexpectedEof {
                num_read: *num_read,
            },
            ReadOutcome::Failed { cause } => ReadOutcomeView::Failed { cause: cause@ },
        }
    }
}

/// Which part of a frame is read next.
#[derive(Debug, Clone, Copy, PartialEq, Eq, Structural)]
pub enum FrameState {
    Header,
    Body { num_len: usize },
}

/// What follows from a read.
#[derive(Debug)]
pub enum FrameStep {
    /// The frame needs another read.
    Pending(FrameState),
    /// The frame, nothing where the browser closed the port, or the reason
    /// why there is no frame.
    Done(Result<Option<Vec<u8>>, FrameError>),
}

pub enum FrameStepView {
    Pending(FrameState),
    Done(Result<Option<Seq<u8>>, FrameErrorView>),
}

pub open spec fn opt_bytes(bytes: Option<Vec<u8>>) -> Option<Seq<u8>> {
    match bytes {
        Some(b) => Some(b@),
        None => None,
    }
}

pub open spec fn frame_result(res: Result<Option<Vec<u8>>, FrameError>) -> Result<
    Option<Seq<u8>>,
    FrameErrorView,
> {
    match res {
        Ok(frame) => Ok(opt_bytes(frame)),
        Err(e) => Err(e@),
    }
}

impl View for FrameStep {
    type V = FrameStepView;

    open spec fn view(&self) -> FrameStepView {
        match self {
            FrameStep::Pending(state) => FrameStepView::Pending(*state),
            FrameStep::Done(res) => FrameStepView::Done(frame_result(*res)),
        }
    }
}

/// The number of bytes that the next read has to fill.
pub open spec fn wanted(state: FrameState) -> nat {
    match state {
        FrameState::Header => NUM_HEADER_BYTES as nat,
        FrameState::Body { num_len } => num_len as nat,
    }
}

/// The number that four bytes stand for, least significant byte first.
pub open spec fn le_number(bytes: Seq<u8>) -> nat {
    (bytes[0] + 0x100 * bytes[1] + 0x1_0000 * bytes[2] + 0x100_0000 * bytes[3]) as nat
}

/// How a frame goes on after a read. The end of the stream closes the port
/// only at the very start of a frame; inside the length or the body it is an
/// error. The cause of a failed read is handed on.
pub open spec fn frame_step(state: FrameState, outcome: ReadOutcomeView) -> FrameStepView {
    match (state, outcome) {
        (FrameState::Header, ReadOutcomeView::Filled(header)) => {
            let num_len = le_number(header);
            if num_len > NUM_MAX_FRAME_BYTES {
                FrameStepView::Done(Err(FrameErrorView::TooLong { num_len: num_len as usize }))
            } else if num_len == 0 {
                FrameStepView::Done(Ok(Some(Seq::empty())))
            } else {
                FrameStepView::Pending(FrameState::Body { num_len: num_len as usize })
            }
        },
        (FrameState::Header, ReadOutcomeView::UnexpectedEof { num_read }) => if num_read == 0 {
            FrameStepView::Done(Ok(None))
        } else {
            FrameStepView::Done(Err(FrameErrorView::TruncatedLength { num_read }))
        },
        (FrameState::Header, ReadOutcomeView::Failed { cause }) => FrameStepView::Done(
            Err(FrameErrorView::ReadLength { cause }),
        ),
        (FrameState::Body { .. }, ReadOutcomeView::Filled(body)) => FrameStepView::Done(
            Ok(Some(body)),
        ),
        (FrameState::Body { .. }, ReadOutcomeView::UnexpectedEof { num_read }) =>
            FrameStepView::Done(Err(FrameErrorView::TruncatedBody { num_read })),
        (FrameState::Body { .. }, ReadOutcomeView::Failed { cause }) => FrameStepView::Done(
            Err(FrameErrorView::ReadBody { cause }),
        ),
    }
}

impl FrameState {
    /// The number of bytes to read next.
    pub fn num_wanted(self) -> (res: usize)
        ensures
            res == wanted(self),
    {
        match self {
            FrameState::Header => NUM_HEADER_BYTES,
            FrameState::Body { num_len } => num_len,
        }
    }
}

/// Takes what a read of `state.num_wanted()` bytes came to and says how the
/// frame goes on.
pub fn read_frame(state: FrameState, outcome: ReadOutcome) -> (res: FrameStep)
    requires
        outcome matches ReadOutcome::Filled(buf) ==> buf@.len() == wanted(state),
        outcome matches ReadOutcome::UnexpectedEof { num_read } ==> num_read < wanted(state),
    ensures
        res@ == frame_step(state, outcome@),
        outcome matches ReadOutcome::Filled(buf) ==> (state is Header ==> {
            let num_len = buf[0] + 0x100 * buf[1] + 0x1_0000 * buf[2] + 0x100_0000 * buf[3];
            &&& num_len == 0 ==> (res matches FrameStep::Done(Ok(Some(frame))) && frame@.len() == 0)
            &&& 0 < num_len <= 0x10_0000 ==> (res matches FrameStep::Pending(
                FrameState::Body { num_len: n },
            ) && n == num_len)
            &&& num_len > 0x10_0000 ==> (res matches FrameStep::Done(
                Err(FrameError::TooLong { num_len: n }),
            ) && n == num_len)
        }),
        outcome matches ReadOutcome::Filled(buf) ==> (state is Body ==> (res matches FrameStep::Done(
            Ok(Some(frame)),
        ) && frame@ == buf@)),
{
    match state {
        FrameState::Header => match outcome {
            ReadOutcome::Filled(buf) => {
                let num_len: usize = buf[0] as usize + 0x100 * buf[1] as usize + 0x1_0000
                    * buf[2] as usize + 0x100_0000 * buf[3] as usize;
                if num_len > NUM_MAX_FRAME_BYTES {
                    FrameStep::Done(Err(FrameError::TooLong { num_len }))
                } else if num_len == 0 {
                    let empty: Vec<u8> = Vec::new();
                    assert(empty@ =~= Seq::empty());
                    FrameStep::Done(Ok(Some(empty)))
                } else {
                    FrameStep::Pending(FrameState::Body { num_len })
                }
            },
            ReadOutcome::UnexpectedEof { num_read } => if num_read == 0 {
                FrameStep::Done(Ok(None))
            } else {
                FrameStep::Done(Err(FrameError::TruncatedLength { num_read }))
            },
            ReadOutcome::Failed { cause } => FrameStep::Done(Err(FrameError::ReadLength { cause })),
        },
        FrameState::Body { .. } => match outcome {
            ReadOutcome::Filled(buf) => FrameStep::Done(Ok(Some(buf))),
            ReadOutcome::UnexpectedEof { num_read } => FrameStep::Done(
                Err(FrameError::TruncatedBody { num_read }),
            ),
            ReadOutcome::Failed { cause } => FrameStep::Done(Err(FrameError::ReadBody { cause })),
        },
    }
}

/// Reading exactly `n` bytes off a stream that ends after `stream`: they are
/// taken if they are there, else the stream is used up.
pub open spec fn stream_read(stream: Seq<u8>, n: nat) -> (ReadOutcomeView, Seq<u8>) {
    if n <= stream.len() {
        (ReadOutcomeView::Filled(stream.take(n as int)), stream.skip(n as int))
    } else {
        (ReadOutcomeView::UnexpectedEof { num_read: stream.len() as usize }, Seq::empty())
    }
}

/// The next frame of a stream and what remains after it.
#[verifier::opaque]
pub open spec fn next_frame(stream: Seq<u8>) -> (
    Result<Option<Seq<u8>>, FrameErrorView>,
    Seq<u8>,
) {
    let (header, tail) = stream_read(stream, wanted(FrameState::Header));
    match frame_step(FrameState::Header, header) {
        FrameStepView::Done(res) => (res, tail),
        FrameStepView::Pending(state) => {
            let (body, rest) = stream_read(tail, wanted(state));
            match frame_step(state, body) {
                FrameStepView::Done(res) => (res, rest),
                FrameStepView::Pending(_) => (
                    Err(FrameErrorView::TruncatedBody { num_read: 0 }),
                    rest,
                ),
            }
        },
    }
}

/// All frames of a stream, and how it ends.
pub open spec fn all_frames(stream: Seq<u8>) -> (Seq<Seq<u8>>, Result<(), FrameErrorView>)
    decreases stream.len(),
{
    let (res, rest) = next_frame(stream);
    match res {
        Ok(Some(frame)) => if rest.len() < stream.len() {
            let (frames, end) = all_frames(rest);
            (seq![frame] + frames, end)
        } else {
            (seq![frame], Ok(()))
        },
        Ok(None) => (Seq::empty(), Ok(())),
        Err(e) => (Seq::empty(), Err(e)),
    }
}

/// `n` in four bytes, least significant byte first.
pub open spec fn le_bytes(n: nat) -> Seq<u8> {
    seq![
        (n % 0x100) as u8,
        (n / 0x100 % 0x100) as u8,
        (n / 0x1_0000 % 0x100) as u8,
        (n / 0x100_0000 % 0x100) as u8,
    ]
}

/// A frame as the browser sends it.
pub open spec fn encode_frame(body: Seq<u8>) -> Seq<u8> {
    le_bytes(body.len()) + body
}

pub open spec fn encode_frames(frames: Seq<Seq<u8>>) -> Seq<u8>
    decreases frames.len(),
{
    if frames.len() == 0 {
        Seq::empty()
    } else {
        encode_frame(frames[0]) + encode_frames(frames.skip(1))
    }
}

/// A frame that the browser sent is read back whole, and nothing of what
/// follows it.
pub proof fn law_frame_is_read_back(body: Seq<u8>, rest: Seq<u8>)
    requires
        body.len() <= NUM_MAX_FRAME_BYTES,
    ensures
        next_frame(encode_frame(body) + rest) == (
            Ok::<Option<Seq<u8>>, FrameErrorView>(Some(body)),
            rest,
        ),
{
    reveal(next_frame);
    let stream = encode_frame(body) + rest;
    let header = le_bytes(body.len());
    assert(stream.take(4) =~= header);
    assert(stream.skip(4) =~= body + rest);
    assert(le_number(header) == body.len());
    if body.len() == 0 {
        assert(body =~= Seq::empty());
        assert(stream.skip(4) =~= rest);
    } else {
        let n = body.len() as int;
        assert((body + rest).take(n) =~= body);
        assert((body + rest).skip(n) =~= rest);
    }
}

proof fn lemma_all_frames_step(stream: Seq<u8>, frame: Seq<u8>, rest: Seq<u8>)
    requires
        next_frame(stream) == (Ok::<Option<Seq<u8>>, FrameErrorView>(Some(frame)), rest),
        rest.len() < stream.len(),
    ensures
        all_frames(stream) == (seq![frame] + all_frames(rest).0, all_frames(rest).1),
{
}

proof fn lemma_length_bytes(n: nat)
    requires
        n < 0x1_0000_0000,
    ensures
        le_number(le_bytes(n)) == n,
{
}

/// What reading a length leads to: its four bytes, the least significant one
/// first, lead on to a body of that many
/// bytes, to an empty frame, or, over a mebibyte, to an error.
pub proof fn law_length_leads_to_its_body(n: int, header: Seq<u8>)
    requires
        header.len() == 4,
        n == header[0] + 0x100 * header[1] + 0x1_0000 * header[2] + 0x100_0000 * header[3],
    ensures
        wanted(FrameState::Header) == header.len(),
        wanted(FrameState::Body { num_len: n as usize }) == n,
        n == 0 ==> frame_step(FrameState::Header, ReadOutcomeView::Filled(header))
            == FrameStepView::Done(Ok(Some(Seq::empty()))),
        0 < n <= 0x10_0000 ==> frame_step(FrameState::Header, ReadOutcomeView::Filled(header))
            == FrameStepView::Pending(FrameState::Body { num_len: n as usize }),
        n > 0x10_0000 ==> frame_step(FrameState::Header, ReadOutcomeView::Filled(header))
            == FrameStepView::Done(Err(FrameErrorView::TooLong { num_len: n as usize })),
{
}

/// What other reads lead to: a body is handed out as it was read, the end of the
/// stream is clean only before the first byte of a length, and a failure keeps
/// its cause.
pub proof fn law_reads_lead_on(
    num_len: usize,
    body: Seq<u8>,
    num_read: usize,
    cause: Seq<char>,
)
    ensures
        frame_step(FrameState::Body { num_len }, ReadOutcomeView::Filled(body))
            == FrameStepView::Done(Ok(Some(body))),
        frame_step(FrameState::Header, ReadOutcomeView::UnexpectedEof { num_read: 0 })
            == FrameStepView::Done(Ok(None)),
        num_read > 0 ==> frame_step(FrameState::Header, ReadOutcomeView::UnexpectedEof { num_read })
            == FrameStepView::Done(Err(FrameErrorView::TruncatedLength { num_read })),
        frame_step(FrameState::Body { num_len }, ReadOutcomeView::UnexpectedEof { num_read })
            == FrameStepView::Done(Err(FrameErrorView::TruncatedBody { num_read })),
        frame_step(FrameState::Header, ReadOutcomeView::Failed { cause }) == FrameStepView::Done(
            Err(FrameErrorView::ReadLength { cause }),
        ),
        frame_step(FrameState::Body { num_len }, ReadOutcomeView::Failed { cause })
            == FrameStepView::Done(Err(FrameErrorView::ReadBody { cause })),
{
}

proof fn lemma_length_is_written_back(bytes: Seq<u8>)
    requires
        bytes.len() == 4,
    ensures
        le_bytes(le_number(bytes)) == bytes,
{
    let n = le_number(bytes);
    assert(n / 0x100 == bytes[1] + 0x100 * bytes[2] + 0x1_0000 * bytes[3]);
    assert(n / 0x1_0000 == bytes[2] + 0x100 * bytes[3]);
    assert(n / 0x100_0000 == bytes[3]);
    assert(le_bytes(n) =~= bytes);
}

/// Four bytes and the number that they announce, the least significant byte
/// first, determine one another.
pub proof fn law_length_bytes_round_trip(bytes: Seq<u8>, n: nat)
    requires
        bytes.len() == 4,
        n < 0x1_0000_0000,
    ensures
        le_number(le_bytes(n)) == n,
        le_bytes(le_number(bytes)) == bytes,
        le_number(bytes) == bytes[0] + 0x100 * bytes[1] + 0x1_0000 * bytes[2] + 0x100_0000
            * bytes[3],
{
    assert(le_number(le_bytes(n)) == n) by {
        lemma_length_bytes(n);
    }
    assert(le_bytes(le_number(bytes)) == bytes) by {
        lemma_length_is_written_back(bytes);
    }
}

/// A frame of at most a mebibyte is read back whole; a longer one is refused
/// with its length, and one that is cut short with the bytes that came of it.
pub proof fn law_frames_up_to_a_mebibyte(body: Seq<u8>, rest: Seq<u8>, n: nat, part: Seq<u8>)
    requires
        n < 0x1_0000_0000,
    ensures
        body.len() <= 0x10_0000 ==> next_frame(le_bytes(body.len()) + body + rest) == (
            Ok::<Option<Seq<u8>>, FrameErrorView>(Some(body)),
            rest,
        ),
        n > 0x10_0000 ==> next_frame(le_bytes(n) + part).0 == Err::<
            Option<Seq<u8>>,
            FrameErrorView,
        >(FrameErrorView::TooLong { num_len: n as usize }),
        n <= 0x10_0000 && part.len() < n ==> next_frame(le_bytes(n) + part).0 == Err::<
            Option<Seq<u8>>,
            FrameErrorView,
        >(FrameErrorView::TruncatedBody { num_read: part.len() as usize }),
{
    if body.len() <= 0x10_0000 {
        law_frame_is_read_back(body, rest);
    }
    let cut = le_bytes(n) + part;
    assert(le_number(cut) == le_number(le_bytes(n)));
    lemma_length_bytes(n);
    law_broken_stream(cut);
}

/// The views of what is read and of what is answered show each of their parts.
pub proof fn law_frame_views(buf: Vec<u8>, num: usize, cause: String, state: FrameState)
    ensures
        ReadOutcome::Filled(buf)@ == ReadOutcomeView::Filled(buf@),
        (ReadOutcome::UnexpectedEof { num_read: num })@ == (ReadOutcomeView::UnexpectedEof {
            num_read: num,
        }),
        (ReadOutcome::Failed { cause })@ == (ReadOutcomeView::Failed { cause: cause@ }),
        FrameStep::Pending(state)@ == FrameStepView::Pending(state),
        FrameStep::Done(Ok(Some(buf)))@ == FrameStepView::Done(Ok(Some(buf@))),
        FrameStep::Done(Ok(None))@ == FrameStepView::Done(Ok(None)),
        FrameStep::Done(Err(FrameError::TooLong { num_len: num }))@ == FrameStepView::Done(
            Err(FrameErrorView::TooLong { num_len: num }),
        ),
        FrameStep::Done(Err(FrameError::TruncatedLength { num_read: num }))@ == FrameStepView::Done(
            Err(FrameErrorView::TruncatedLength { num_read: num }),
        ),
        FrameStep::Done(Err(FrameError::TruncatedBody { num_read: num }))@ == FrameStepView::Done(
            Err(FrameErrorView::TruncatedBody { num_read: num }),
        ),
        FrameStep::Done(Err(FrameError::ReadLength { cause }))@ == FrameStepView::Done(
            Err(FrameErrorView::ReadLength { cause: cause@ }),
        ),
        FrameStep::Done(Err(FrameError::ReadBody { cause }))@ == FrameStepView::Done(
            Err(FrameErrorView::ReadBody { cause: cause@ }),
        ),
        ReceiverAction::Send(buf)@ == ReceiverActionView::Send(buf@),
        ReceiverAction::ReadFrame@ == ReceiverActionView::ReadFrame,
        ReceiverAction::Finish@ == ReceiverActionView::Finish,
{
}

/// The views of errors, and of what is answered with them, keep the cause.
pub proof fn law_error_views(buf: Vec<u8>, cause: String, e: FrameError, f: ForwardError)
    ensures
        ReceiverAction::Fail(e)@ == ReceiverActionView::Fail(e@),
        ReceiverAction::SkipFrame(f)@ == ReceiverActionView::SkipFrame(f@),
        (ForwardError::ParseExtensionJson { cause })@ == (ForwardErrorView::ParseExtensionJson {
            cause: cause@,
        }),
        (ForwardError::SerializeAugmentedJson { cause })@ == (
        ForwardErrorView::SerializeAugmentedJson { cause: cause@ }),
        frame_result(Err(e)) == Err::<Option<Seq<u8>>, FrameErrorView>(e@),
        datagram_result(Err(f)) == Err::<Option<Seq<u8>>, ForwardErrorView>(f@),
        datagram_result(Ok(None)) == Ok::<Option<Seq<u8>>, ForwardErrorView>(None),
        datagram_result(Ok(Some(buf))) == Ok::<Option<Seq<u8>>, ForwardErrorView>(Some(buf@)),
{
}

/// Every frame that the browser sent is read back, in order, and the end of
/// the stream then closes the port without an error.
pub proof fn law_all_frames_are_read_back(frames: Seq<Seq<u8>>)
    requires
        forall|i: int| 0 <= i < frames.len() ==> #[trigger] frames[i].len() <= NUM_MAX_FRAME_BYTES,
    ensures
        all_frames(encode_frames(frames)) == (frames, Ok::<(), FrameErrorView>(())),
    decreases frames.len(),
{
    let stream = encode_frames(frames);
    if frames.len() == 0 {
        law_broken_stream(stream);
        assert(frames =~= Seq::empty());
    } else {
        let rest = encode_frames(frames.skip(1));
        law_frame_is_read_back(frames[0], rest);
        law_all_frames_are_read_back(frames.skip(1));
        lemma_all_frames_step(stream, frames[0], rest);
        assert(frames =~= seq![frames[0]] + frames.skip(1));
    }
}

/// The end of the stream closes the port only where a frame would begin. A
/// stream that ends inside a length, a length over the limit and a body that is
/// cut short are errors.
pub proof fn law_broken_stream(stream: Seq<u8>)
    ensures
        stream.len() == 0 ==> next_frame(stream).0 == Ok::<Option<Seq<u8>>, FrameErrorView>(None),
        0 < stream.len() < 4 ==> next_frame(stream).0 == Err::<Option<Seq<u8>>, FrameErrorView>(
            FrameErrorView::TruncatedLength { num_read: stream.len() as usize },
        ),
        stream.len() >= 4 && le_number(stream) > NUM_MAX_FRAME_BYTES ==> next_frame(stream).0
            == Err::<Option<Seq<u8>>, FrameErrorView>(
            FrameErrorView::TooLong { num_len: le_number(stream) as usize },
        ),
        stream.len() >= 4 && le_number(stream) <= NUM_MAX_FRAME_BYTES && stream.len() < 4
            + le_number(stream) ==> next_frame(stream).0 == Err::<Option<Seq<u8>>, FrameErrorView>(
            FrameErrorView::TruncatedBody { num_read: (stream.len() - 4) as usize },
        ),
{
    reveal(next_frame);
    if stream.len() >= 4 {
        assert(le_number(stream.take(4)) == le_number(stream));
    }
}

/// Why a frame is not forwarded.
#[derive(Debug, Clone, PartialEq, Eq)]
pub enum ForwardError {
    /// The frame is not JSON; `cause` is the parser's message.
    ParseExtensionJson { cause: String },
    /// The datagram could not be written; `cause` is the writer's message.
    SerializeAugmentedJson { cause: String },
}

pub enum ForwardErrorView {
    ParseExtensionJson { cause: Seq<char> },
    SerializeAugmentedJson { cause: Seq<char> },
}

impl View for ForwardError {
    type V = ForwardErrorView;

    open spec fn view(&self) -> ForwardErrorView {
        match self {
            ForwardError::ParseExtensionJson { cause } => ForwardErrorView::ParseExtensionJson {
                cause: cause@,
            },
            ForwardError::SerializeAugmentedJson { cause } =>
                ForwardErrorView::SerializeAugmentedJson { cause: cause@ },
        }
    }
}

/// `document` with the browser's pid among its members, if it is an object.
pub open spec fn with_browser_pid(document: JsonDocument, num_browser_pid: u32) -> JsonDocument {
    match document {
        JsonDocument::Object(object) => JsonDocument::Object(
            JsonObject {
                fields: object.fields.insert(
                    STR_BROWSER_PID_KEY@,
                    decimal(num_browser_pid as nat),
                ),
                depth: object.depth,
            },
        ),
        other => other,
    }
}

/// The datagram for a frame: none for an empty frame, else the frame's
/// document with the browser's pid added. A frame that is not JSON has none, and
/// the parser's message tells why.
pub open spec fn datagram_of(frame: Seq<u8>, num_browser_pid: u32) -> Result<
    Option<Seq<u8>>,
    ForwardErrorView,
> {
    if frame.len() == 0 {
        Ok(None)
    } else {
        match parsed_document(frame) {
            Ok(document) => Ok(
                Some(document_text(with_browser_pid(document, num_browser_pid))),
            ),
            Err(cause) => Err(ForwardErrorView::ParseExtensionJson { cause }),
        }
    }
}

/// What a frame becomes. An empty frame has no datagram; one that is not JSON
/// has none either, and keeps the parser's message; an object is written out
/// with the member `browser_pid` set to the browser's pid and every other member
/// as it was; any other document is written out as it is.
pub proof fn law_datagram_is_the_frame_with_the_pid(frame: Seq<u8>, num_browser_pid: u32)
    ensures
        frame.len() == 0 ==> datagram_of(frame, num_browser_pid) == Ok::<
            Option<Seq<u8>>,
            ForwardErrorView,
        >(None),
        frame.len() > 0 ==> match parsed_document(frame) {
            Err(cause) => datagram_of(frame, num_browser_pid) == Err::<
                Option<Seq<u8>>,
                ForwardErrorView,
            >(ForwardErrorView::ParseExtensionJson { cause }),
            Ok(JsonDocument::Other { text, .. }) => datagram_of(frame, num_browser_pid) == Ok::<
                Option<Seq<u8>>,
                ForwardErrorView,
            >(Some(text)),
            Ok(JsonDocument::Object(object)) => datagram_of(frame, num_browser_pid) == Ok::<
                Option<Seq<u8>>,
                ForwardErrorView,
            >(
                Some(
                    object_text(
                        object.fields.insert("browser_pid"@, decimal(num_browser_pid as nat)),
                    ),
                ),
            ),
        },
{
}

/// The browser's pid replaces what a frame claims it to be, and two frames with
/// the same members otherwise have the same datagram.
pub proof fn law_claimed_pid_does_not_matter(
    a: Seq<u8>,
    b: Seq<u8>,
    num_browser_pid: u32,
    x: JsonObject,
    y: JsonObject,
)
    requires
        a.len() > 0 && b.len() > 0,
        parsed_document(a) == Ok::<JsonDocument, Seq<char>>(JsonDocument::Object(x)),
        parsed_document(b) == Ok::<JsonDocument, Seq<char>>(JsonDocument::Object(y)),
        x.fields.remove("browser_pid"@) == y.fields.remove("browser_pid"@),
    ensures
        datagram_of(a, num_browser_pid) == datagram_of(b, num_browser_pid),
{
    let text = decimal(num_browser_pid as nat);
    let key = "browser_pid"@;
    assert(x.fields.insert(key, text) =~= x.fields.remove(key).insert(key, text));
    assert(y.fields.insert(key, text) =~= y.fields.remove(key).insert(key, text));
}

pub open spec fn datagram_result(res: Result<Option<Vec<u8>>, ForwardError>) -> Result<
    Option<Seq<u8>>,
    ForwardErrorView,
> {
    match res {
        Ok(datagram) => Ok(opt_bytes(datagram)),
        Err(e) => Err(e@),
    }
}

/// Sets the member `browser_pid` where the value is an object; any other value
/// stays as it is.
pub fn inject_browser_pid(value: &mut serde_json::Value, num_browser_pid: u32)
    ensures
        match value_document(*old(value)) {
            JsonDocument::Object(object) => {
                &&& value_document(*final(value)) matches JsonDocument::Object(after)
                &&& after.fields == object.fields.insert(
                    STR_BROWSER_PID_KEY@,
                    decimal(num_browser_pid as nat),
                )
                &&& after.depth <= object.depth
            },
            other => value_document(*final(value)) == other,
        },
{
    match as_object_mut(value) {
        Some(map) => {
            insert_member(map, STR_BROWSER_PID_KEY.to_owned(), number_value(num_browser_pid));
        },
        None => {},
    }
}

/// The datagram to send for a frame, if there is one. Where the frame is an
/// object, whoever parses the datagram finds its members and the browser's
/// pid, and every string as it was.
pub fn forward_frame(vec_frame: &[u8], num_browser_pid: u32) -> (res: Result<
    Option<Vec<u8>>,
    ForwardError,
>)
    ensures
        datagram_result(res) == datagram_of(vec_frame@, num_browser_pid),
        vec_frame@.len() > 0 ==> (parsed_document(vec_frame@) matches Ok(
            JsonDocument::Object(object),
        ) ==> {
            &&& reads_back(
                res->Ok_0->Some_0@,
                object.fields.insert(STR_BROWSER_PID_KEY@, decimal(num_browser_pid as nat)),
            )
            &&& parsed_document(res->Ok_0->Some_0@) matches Ok(JsonDocument::Object(read))
            &&& read.fields.contains_key(STR_BROWSER_PID_KEY@)
            &&& read.fields[STR_BROWSER_PID_KEY@] == decimal(num_browser_pid as nat)
            &&& forall|key: Seq<char>| #[trigger]
                object.fields.contains_key(key) && key != STR_BROWSER_PID_KEY@ ==> {
                    &&& read.fields.contains_key(key)
                    &&& is_string_or_u32(object.fields[key]) ==> read.fields[key]
                        == object.fields[key]
                }
        }),
{
    if vec_frame.len() == 0 {
        return Ok(None);
    }
    let mut value = match from_slice(vec_frame) {
        Ok(value) => value,
        Err(cause) => return Err(ForwardError::ParseExtensionJson { cause }),
    };
    inject_browser_pid(&mut value, num_browser_pid);
    match to_vec(&value) {
        Ok(vec_out) => {
            proof {
                if let Ok(JsonDocument::Object(object)) = parsed_document(vec_frame@) {
                    let fields = object.fields.insert(
                        STR_BROWSER_PID_KEY@,
                        decimal(num_browser_pid as nat),
                    );
                    assert(is_string_or_u32(decimal(num_browser_pid as nat)));
                    assert(fields.contains_key(STR_BROWSER_PID_KEY@));
                    assert(fields.dom().contains(STR_BROWSER_PID_KEY@));
                    assert forall|key: Seq<char>| #[trigger]
                        object.fields.contains_key(key) && key
                            != STR_BROWSER_PID_KEY@ implies fields.contains_key(key)
                        && fields.dom().contains(key) && fields[key] == object.fields[key] by {}
                }
            }
            Ok(Some(vec_out))
        },
        Err(cause) => Err(ForwardError::SerializeAugmentedJson { cause }),
    }
}

/// The browser bridge while it runs.
#[derive(Debug, Clone, Copy, PartialEq, Eq, Structural)]
pub struct ReceiverSession {
    pub num_browser_pid: u32,
    /// Frames forwarded so far.
    pub num_frames_ok: u64,
}

/// What happened at the bridge.
#[derive(Debug)]
pub enum ReceiverEvent {
    /// A frame was read, or the reason why there is none.
    Frame(Result<Option<Vec<u8>>, FrameError>),
    /// A datagram was sent, or could not be.
    Sent { is_ok: bool },
}

/// What the bridge does next.
#[derive(Debug)]
pub enum ReceiverAction {
    ReadFrame,
    Send(Vec<u8>),
    /// Note that the frame is dropped, then read the next one.
    SkipFrame(ForwardError),
    /// The browser closed the port.
    Finish,
    Fail(FrameError),
}

pub enum ReceiverActionView {
    ReadFrame,
    Send(Seq<u8>),
    SkipFrame(ForwardErrorView),
    Finish,
    Fail(FrameErrorView),
}

impl View for ReceiverAction {
    type V = ReceiverActionView;

    open spec fn view(&self) -> ReceiverActionView {
        match self {
            ReceiverAction::ReadFrame => ReceiverActionView::ReadFrame,
            ReceiverAction::Send(datagram) => ReceiverActionView::Send(datagram@),
            ReceiverAction::SkipFrame(e) => ReceiverActionView::SkipFrame(e@),
            ReceiverAction::Finish => ReceiverActionView::Finish,
            ReceiverAction::Fail(e) => ReceiverActionView::Fail(e@),
        }
    }
}

/// What follows an event, and whether it completes a forwarded frame. Only
/// the stream of frames can end the loop: a frame that is not understood is
/// skipped with the reason, and one that is not sent is passed over.
pub open spec fn receiver_step(num_browser_pid: u32, event: ReceiverEvent) -> (
    ReceiverActionView,
    bool,
) {
    match event {
        ReceiverEvent::Frame(Ok(None)) => (ReceiverActionView::Finish, false),
        ReceiverEvent::Frame(Err(e)) => (ReceiverActionView::Fail(e@), false),
        ReceiverEvent::Frame(Ok(Some(frame))) => match datagram_of(frame@, num_browser_pid) {
            Ok(Some(datagram)) => (ReceiverActionView::Send(datagram), false),
            Ok(None) => (ReceiverActionView::ReadFrame, true),
            Err(e) => (ReceiverActionView::SkipFrame(e), false),
        },
        ReceiverEvent::Sent { is_ok } => (ReceiverActionView::ReadFrame, is_ok),
    }
}

/// Nothing but the stream of frames ends the bridge: its end does so cleanly,
/// a broken frame with an error. A whole frame that has no datagram is skipped,
/// and nothing else is.
pub proof fn law_only_the_stream_ends_the_bridge(num_browser_pid: u32, event: ReceiverEvent)
    ensures
        receiver_step(num_browser_pid, event).0 is Finish <==> event == ReceiverEvent::Frame(
            Ok(None),
        ),
        receiver_step(num_browser_pid, event).0 is Fail <==> (event matches ReceiverEvent::Frame(
            Err(_),
        )),
        receiver_step(num_browser_pid, event).0 is SkipFrame <==> (event matches
            ReceiverEvent::Frame(Ok(Some(frame))) && datagram_of(frame@, num_browser_pid) is Err),
{
}

/// What each event leads to, and which of them count a forwarded frame: a frame
/// with a datagram is sent and counts once it was, an empty frame counts at
/// once, and nothing else counts.
pub proof fn law_bridge_forwards_every_frame(
    num_browser_pid: u32,
    frame: Vec<u8>,
    e: FrameError,
    is_ok: bool,
)
    ensures
        receiver_step(num_browser_pid, ReceiverEvent::Frame(Ok(None))) == (
            ReceiverActionView::Finish,
            false,
        ),
        receiver_step(num_browser_pid, ReceiverEvent::Frame(Err(e))) == (
            ReceiverActionView::Fail(e@),
            false,
        ),
        receiver_step(num_browser_pid, ReceiverEvent::Sent { is_ok }) == (
            ReceiverActionView::ReadFrame,
            is_ok,
        ),
        frame@.len() == 0 ==> receiver_step(
            num_browser_pid,
            ReceiverEvent::Frame(Ok(Some(frame))),
        ) == (ReceiverActionView::ReadFrame, true),
        frame@.len() > 0 ==> receiver_step(
            num_browser_pid,
            ReceiverEvent::Frame(Ok(Some(frame))),
        ) == (
            match datagram_of(frame@, num_browser_pid) {
                Ok(Some(datagram)) => ReceiverActionView::Send(datagram),
                Ok(None) => ReceiverActionView::ReadFrame,
                Err(cause) => ReceiverActionView::SkipFrame(cause),
            },
            false,
        ),
{
}

/// Takes what happened at the bridge and says what to do next.
pub fn run(session: &mut ReceiverSession, event: ReceiverEvent) -> (res: ReceiverAction)
    requires
        old(session).num_frames_ok < u64::MAX,
    ensures
        res@ == receiver_step(old(session).num_browser_pid, event).0,
        final(session).num_browser_pid == old(session).num_browser_pid,
        final(session).num_frames_ok == old(session).num_frames_ok + (if receiver_step(
            old(session).num_browser_pid,
            event,
        ).1 {
            1int
        } else {
            0
        }),
{
    match event {
        ReceiverEvent::Frame(Ok(Some(vec_frame))) => {
            match forward_frame(vec_frame.as_slice(), session.num_browser_pid) {
                Ok(Some(vec_out)) => ReceiverAction::Send(vec_out),
                Ok(None) => {
                    session.num_frames_ok = session.num_frames_ok + 1;
                    ReceiverAction::ReadFrame
                },
                Err(e) => ReceiverAction::SkipFrame(e),
            }
        },
        ReceiverEvent::Frame(Ok(None)) => ReceiverAction::Finish,
        ReceiverEvent::Frame(Err(e)) => ReceiverAction::Fail(e),
        ReceiverEvent::Sent { is_ok } => {
            if is_ok {
                session.num_frames_ok = session.num_frames_ok + 1;
            }
            ReceiverAction::ReadFrame
        },
    }
}

/// Directories that are searched for the settings, the first one included.
pub const NUM_MAX_PARENT_WALK: usize = 8;

/// How the search for the settings goes on.
#[derive(Debug, Clone, Copy, PartialEq, Eq, Structural)]
pub enum SearchStep {
    Found,
    TryParent,
    GiveUp,
}

/// How the search goes on in a directory, after `num_tried` directories below
/// it.
pub open spec fn search_step(num_tried: usize, is_file: bool, has_parent: bool) -> SearchStep {
    if is_file {
        SearchStep::Found
    } else if has_parent && num_tried + 1 < NUM_MAX_PARENT_WALK {
        SearchStep::TryParent
    } else {
        SearchStep::GiveUp
    }
}

/// Where the search ends that has come to directory `i`. `files` tells of each
/// directory, from the first one up to the root, whether the settings are there.
pub open spec fn search_from(files: Seq<bool>, i: int) -> Option<int>
    decreases files.len() - i,
{
    if 0 <= i < files.len() {
        match search_step(i as usize, files[i], i + 1 < files.len()) {
            SearchStep::Found => Some(i),
            SearchStep::TryParent => search_from(files, i + 1),
            SearchStep::GiveUp => None,
        }
    } else {
        None
    }
}

/// The nearest settings are found if they are in one of the first eight
/// directories, and nothing is found else.
pub proof fn law_nearest_config_is_found(files: Seq<bool>, i: int, k: int)
    requires
        0 <= i <= k <= files.len(),
        i <= 7,
        files.len() <= usize::MAX,
        forall|j: int| i <= j < k ==> !#[trigger] files[j],
    ensures
        k < files.len() && k < 8 && files[k] ==> search_from(files, i) == Some(k),
        k == files.len() || k >= 8 ==> search_from(files, i) is None,
    decreases k - i,
{
    if i < k {
        assert(!files[i]);
        if i < 7 && i + 1 < files.len() {
            law_nearest_config_is_found(files, i + 1, k);
        }
    }
}

/// What follows from looking for the settings in a directory, after
/// `num_tried` directories below it: they are there, or its parent is next if
/// there is one and the cap is not reached.
pub fn search_config(num_tried: usize, is_file: bool, has_parent: bool) -> (res: SearchStep)
    ensures
        res == (if is_file {
            SearchStep::Found
        } else if has_parent && num_tried + 1 < NUM_MAX_PARENT_WALK {
            SearchStep::TryParent
        } else {
            SearchStep::GiveUp
        }),
        res == search_step(num_tried, is_file, has_parent),
        res is Found <==> is_file,
        res is TryParent <==> !is_file && has_parent && num_tried < 7,
{
    if is_file {
        SearchStep::Found
    } else if has_parent && num_tried < NUM_MAX_PARENT_WALK - 1 {
        SearchStep::TryParent
    } else {
        SearchStep::GiveUp
    }
}

} // verus!
