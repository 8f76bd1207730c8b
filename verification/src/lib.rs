//! Logic of an activity tracker: which usage segments are recorded, what they
//! hold, and what the browser bridge forwards.

mod bits;
pub mod common_struct;
pub mod db_handler;
pub mod idle_event;
pub mod json;
pub mod log_format;
pub mod process_tree;
pub mod snapshot;
pub mod text;
pub mod timeline;
pub mod tracker;
pub mod web_listener;
pub mod web_receiver;
pub mod win_event;
