//! Token definitions and rendering for HTML stream processing.
//!
//! An HTML document is modelled as a forward-only sequence of structural
//! events (start tag, end tag, text, raw text, comment, doctype).  The
//! library renders such a sequence into correctly escaped HTML text, either
//! eagerly into a sink or incrementally through bounded-size pull reads.

pub mod attr;
pub mod attribute;
pub mod attribute_set;
pub mod escape;
pub mod event;
pub mod fmt;
pub mod read;
pub mod stream;
pub mod token;
pub mod util;
pub mod write;

pub use event::Event;
pub use token::Token;
