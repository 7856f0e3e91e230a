//! Networking data types and the datagram socket layer.

pub mod icmp;
pub mod ipv4;
pub mod packet;
pub mod proto;
pub mod socket;

pub use packet::Packet;
pub use proto::MacAddress;
pub use socket::Socket;
