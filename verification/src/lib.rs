//! A sans-I/O HTTP/1.1 connection engine: a pure state machine and byte-stream
//! codec that a client and a server drive to exchange well-framed HTTP/1.x
//! messages over a reliable, ordered byte transport. The engine performs no
//! I/O; callers feed bytes in, consume bytes out, and submit or receive
//! high-level message events.

pub mod body;
pub mod conn;
pub mod error;
pub mod event;
pub mod headers;
pub mod req;
pub mod resp;
pub mod state;
pub mod status;
pub mod util;
pub mod writer;

pub use conn::{Client, HttpConn, Server};
pub use error::HttpError;
pub use event::Event;
pub use req::ReqHead;
pub use resp::RespHead;
