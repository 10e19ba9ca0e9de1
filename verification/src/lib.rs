//! Locating SIP servers: from a request URI to the ordered targets
//! (address, port, transport, TTL) that a user agent should try, by way of
//! NAPTR, SRV and address records.
//!
//! The library never performs a lookup itself. A resolvable reports the
//! lookup it needs as a [`Step::Lookup`], and goes on once the answer has been
//! handed to it.
//!
//! What a resolvable has left to do is modelled by
//! [`resolvables::plan::Plan`]; the contracts of the resolvables and of
//! [`Lookup`] are stated over it, and so are the laws that hold of every
//! lookup: that the end is final, that a fallback is entered only after the
//! method before it has given no target, and that records which came along
//! with an answer change how soon the targets come and not which.
//!
//! # Trust
//!
//! Every function is verified but those that call into another crate. These
//! are the functions of [`hickory_dns::recursive_client`] that read a domain
//! name, write a query and read a response with hickory-proto and draw a
//! message id with rand, and the function of [`text`] that reads bytes as
//! UTF-8 with std. Their contracts only give names to what those calls
//! return.

pub mod context;
pub mod error;
pub mod gather;
pub mod hickory_dns;
pub mod lookup;
pub mod records;
pub mod resolvables;
pub mod search;
pub mod sorting;
pub mod text;
pub mod target;
pub mod transport;

pub use context::{Context, Host, Scheme, Uri};
pub use error::Error;
pub use lookup::just_domain_lookup::JustDomainLookup;
pub use lookup::Lookup;
pub use records::naptr_record::{NaptrEntry, NaptrFlags, NaptrRecord, NaptrServices};
pub use records::srv_record::{SrvEntry, SrvRecord};
pub use records::{AddrRecord, SrvDomain};
pub use resolvables::{Answer, Query, ResolvableExt, ResolvableState, Step};
pub use target::{IpAddr, SocketAddr, Target, DEFAULT_TTL};
pub use transport::{SupportedTransports, Transport};
