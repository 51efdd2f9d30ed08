//! Parsing, slicing, construction and serialization of networking
//! headers from Ethernet (layer 2) up through the transport layer
//! (layer 4).
//!
//! Frames are decoded into typed header values or zero-copy slice
//! views, and well-formed frames are built from typed descriptions
//! while the required checksums and length fields are computed by
//! the builder.

pub mod builder;
pub mod bytes;
pub mod checksum;
pub mod err;
pub mod ether_type;
pub mod icmp;
pub mod icmpv4;
pub mod icmpv6;
pub mod ip;
pub mod ip6ext;
pub mod ip_auth;
pub mod ip_number;
pub mod ipv4;
pub mod ipv6;
pub mod link;
pub mod packet;
pub mod sliced;
pub mod tcp;
pub mod tcp_options;
pub mod transport;
pub mod udp;
