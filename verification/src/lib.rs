//! Asynchronous HTTPS fetch, as a poll-driven state machine.
//!
//! A [`Fetch`] takes a request through its exchange: it waits for the
//! response's head, accepts or refuses the response by its status, and
//! hands out the body piece by piece.  It does no I/O.  Whoever drives it
//! asks a transport for the step that the fetch waits for and hands the
//! answer over as a [`fetch::Signal`]; each poll gives an event or nothing
//! yet.  [`All`] drains a fetch into one buffer.
//!
//! Two things are settled here that HTTP clients differ on.  A fetch that is
//! `Done` or `Failed` may be polled again, and repeats its last event.  And
//! a response that cannot be read as HTTP/1.x fails with a kind of its own,
//! [`Error::Protocol`].
//!
//! [`http1`] is the transport for a raw byte stream: it writes the request
//! out as bytes and reads the response back out of whatever pieces the
//! stream delivers.

pub mod all;
pub mod builder;
pub mod error;
pub mod fetch;
pub mod header;
pub mod http1;
pub mod method;
pub mod request;

pub use crate::all::All;
pub use crate::builder::FetchBuilder;
pub use crate::error::Error;
pub use crate::fetch::Fetch;
pub use crate::header::Header;
pub use crate::method::Method;
pub use crate::request::Request;
