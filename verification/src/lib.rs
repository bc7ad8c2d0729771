//! OAuth 1.0a request signing for a REST client: percent-encoding, parameter
//! normalization, signature base strings, HMAC-SHA1 signatures and the
//! `Authorization` header, all over byte strings.

pub mod text;
pub mod encoding;
pub mod order;
pub mod params;
pub mod signature;
pub mod header;
pub mod error;
pub mod target;
pub mod client;

pub use encoding::encode;
pub use client::{SignedRequest, TwitterClient, SEARCH_TWEETS, STATUSES_UPDATE};
pub use error::TwitterError;
pub use header::assemble;
pub use params::{create_query, normalize};
pub use signature::{build_base_string, build_key, sign};
pub use target::{base_string_url, split_url, UrlParts};
