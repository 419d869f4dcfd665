//! A client-side core for the SauceNAO reverse image search service.
//!
//! The crate turns the settings of a search into the request to send,
//! interprets the decoded answer of the service, and keeps the rate limits
//! that the service reports. Sending the request and decoding the answer are
//! left to the caller.
//!
//! A similarity is held as a whole number of hundredths of a percent, and a
//! selection of sites is sent as a 64-bit mask in which the bit at a site's
//! index stands for that site.

pub mod address;
pub mod builder;
pub mod error;
pub mod handler;
pub mod json;
pub mod limits;
pub mod request;
pub mod response;
pub mod similarity;
pub mod source;
pub mod text;

pub use error::{ErrType, Error};
pub use builder::HandlerBuilder;
pub use handler::{Handler, Request, Upload};
pub use limits::RateLimits;
pub use request::{QueryPair, SearchConfig};
pub use response::{ResponseHeader, ResultData, ResultHeader, ResultRow, Sauce, SauceResult};
pub use similarity::Similarity;
pub use source::Source;
