//! A small DNS query codec: the two flag octets of the message header, the
//! wire form of domain names, the outbound query message and the header of
//! an inbound reply.

pub mod bits;
pub mod buffer;
pub mod dump;
pub mod flags;
pub mod ident;
pub mod name;
pub mod report;
pub mod request;
pub mod response;
pub mod text;
