//! A client-side data layer for a paginated news service.
//!
//! * [`request`]: what a reader can ask for, and the names of it on the wire.
//! * [`address`]: the address of a request under a base address.
//! * [`client`]: the client's settings, and what the outcome of a request
//!   comes to: the articles, or one of a closed set of errors.
//! * [`cache`]: the last good answer and the request it answers; a read asks
//!   the service only where the request has changed.
//! * [`rank`]: the cached articles ranked against a filter text.
//! * [`article`], [`error`], [`text`], [`rnd`], [`ui`]: the article model, the
//!   errors, text search, made-up articles for a demonstration, and the state
//!   of a screen.
//!
//! The library asks nothing of the network itself: a read is handed the one
//! function that does, and calls it at most once.

pub mod address;
pub mod article;
pub mod cache;
pub mod client;
pub mod error;
pub mod rank;
pub mod request;
pub mod rnd;
pub mod text;
pub mod ui;
