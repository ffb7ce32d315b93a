//! Token-free X/Twitter reader, shared by a command line and an HTTP service.
//!
//! The layers, from the input to the output:
//!
//! - [`parse`] accepts the forms in which people refer to a post.
//! - [`client`] says which upstream services are asked and what is made of their
//!   answers; [`transport`] has the retries, [`conversation`] the replies.
//! - [`normalize`], [`article`] and [`oembed`] turn loose documents into the
//!   stable types of [`model`]; [`spans`], [`styles`], [`media`], [`links`],
//!   [`tokens`], [`dates`] and [`calendar`] have their parts.
//! - [`video`] selects one MP4 for every video; [`download`] plans and orders
//!   the work of saving them.
//! - [`render`], [`markdown`] and [`human`] are views of a result.
//! - [`cli`] and [`worker`] have the rules of the two programs around the
//!   library.
//!
//! What all of this promises stands beside it as laws, and in modules of their
//! own: [`documents`] says which member of a document every part of a post comes
//! from, [`paragraphs`] what becomes of the blocks of an article, [`views`],
//! [`shown`] and [`readable`] what is seen of a result, and [`operations`] what
//! calls return.
//!
//! [`text`], [`utf16`], [`double`] and [`json`] are the ground all of this
//! stands on. [`bridge`] holds every call into another crate.

pub mod article;
pub mod bridge;
pub mod calendar;
pub mod cli;
pub mod client;
pub mod conversation;
pub mod dates;
pub mod documents;
pub mod double;
pub mod download;
pub mod error;
pub mod human;
pub mod json;
pub mod links;
pub mod markdown;
pub mod media;
pub mod model;
pub mod normalize;
pub mod oembed;
pub mod operations;
pub mod paragraphs;
pub mod parse;
pub mod readable;
pub mod render;
pub mod shown;
pub mod spans;
pub mod styles;
pub mod text;
pub mod tokens;
pub mod transport;
pub mod utf16;
pub mod video;
pub mod views;
pub mod worker;

pub use client::XReader;
pub use dates::snowflake_timestamp;
pub use download::{DownloadEvent, DownloadOptions, DownloadedVideo};
pub use error::{ErrorKind, ErrorResponse, XReadError};
pub use human::render_human;
pub use markdown::render_markdown;
pub use model::{
    Article, Author, Link, Media, MediaVariant, Metrics, Post, PostReference, ReadOptions,
    ReadResult, ReaderConfig, ReplyInfo, ReplyMode, SortMode, VideoQuality,
    DEFAULT_COMMUNITY_BASE_URL, DEFAULT_LIMIT, DEFAULT_RETRIES, DEFAULT_TIMEOUT_MS, MAX_LIMIT,
};
pub use parse::parse_post_reference;
pub use render::{render_text, OutputFormat};
