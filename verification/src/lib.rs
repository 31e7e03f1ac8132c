//! Decision logic of a video-call product.

pub mod text;
pub mod json;
pub mod framing;
pub mod stream_writer;
pub mod theme_color;
pub mod theme_file;
pub mod clock;
pub mod chat_message;
pub mod jmap;
pub mod conversation;
pub mod chat_sidebar;
pub mod feed_stream;
pub mod screen_share_dom;
pub mod meeting_state;
pub mod proctor;
