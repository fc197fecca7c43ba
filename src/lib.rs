//! Bookkeeping core of a socket-call interposition layer: the address model,
//! the correlation tables and the decisions taken around each genuine call.

pub mod addr_response;
pub mod errno;
pub mod interpose;
pub mod ip_addr;
pub mod monitored_sockets;
pub mod printable_cstring;
pub mod resolved_addresses;
pub mod text;
