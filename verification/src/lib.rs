//! Verified core of a channel-watching audio uploader: feed decoding,
//! title screening, the seen-video log and the pieces of the upload request.

pub mod text;
pub mod structs;
pub mod title;
pub mod errors;
pub mod feed;
pub mod feed_guard;
pub mod seen;
pub mod youtube;
pub mod telegram;
