//! Model output handling: think-tag markup and the wire formats of the model APIs.
pub mod think_tags;
pub mod think_tag_buffer;
pub mod client;
pub mod replies;
pub mod tool_buffers;
pub mod stream;
pub mod request;
