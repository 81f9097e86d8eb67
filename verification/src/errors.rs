//! The library's error types.

use vstd::prelude::*;
use crate::structs::ProcessOutput;

verus! {

#[verifier::external_type_specification]
#[verifier::external_body]
pub struct ExParseFeedError(feed_rs::parser::ParseFeedError);

#[verifier::external_type_specification]
#[verifier::external_body]
pub struct ExReqwestError(reqwest::Error);

#[verifier::external_type_specification]
#[verifier::external_body]
pub struct ExIoError(std::io::Error);

/// Why a channel's newest video could not be found.
#[derive(Debug)]
pub enum FeedError {
    VideoIdNotFound,
    ParseError(feed_rs::parser::ParseFeedError),
    RequestError(reqwest::Error),
    ResponseError(String),
    EmptyFeed(String),
    MissingField(String),
}

/// The abstract value of a [`FeedError`]: the variant and its text.
pub enum FeedFault {
    VideoIdNotFound,
    Parse,
    Request,
    Response(Seq<char>),
    EmptyFeed(Seq<char>),
    MissingField(Seq<char>),
}

impl FeedError {
    /// The variant of this error and its text.
    pub open spec fn fault(self) -> FeedFault {
        match self {
            FeedError::VideoIdNotFound => FeedFault::VideoIdNotFound,
            FeedError::ParseError(_) => FeedFault::Parse,
            FeedError::RequestError(_) => FeedFault::Request,
            FeedError::ResponseError(s) => FeedFault::Response(s@),
            FeedError::EmptyFeed(s) => FeedFault::EmptyFeed(s@),
            FeedError::MissingField(s) => FeedFault::MissingField(s@),
        }
    }
}

/// Why an upload to Telegram failed.
#[derive(Debug)]
pub enum TelegramError {
    RequestError(reqwest::Error),
    ResponseError(String),
}

/// Why a `pipx` call failed.
#[derive(Debug)]
pub enum PipxError {
    CallError(std::io::Error),
    StatusError(ProcessOutput),
}

/// Why a yt-dlp call failed.
#[derive(Debug)]
pub enum YtDlpError {
    CallError(std::io::Error),
    StatusError(ProcessOutput),
}

} // verus!
