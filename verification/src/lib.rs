//! XSCP (XSCP Simple Chat Protocol): a line-oriented, pipe-delimited UTF-8
//! chat protocol with a 512-byte PDU budget.
//!
//! The protocol layer holds the request, response and notification PDUs with
//! checked constructors, parsers and wire writers. On top of it stand the
//! decisions of the reference server (session registration, login, the
//! connection state machine) and of the reference client.
pub mod wire;
pub mod request;
pub mod response;
pub mod notification;
pub mod replies;
pub mod session;
pub mod storage;
pub mod connection;
pub mod client;

pub use request::OpCode;
pub use request::RequestError;
pub use request::XscpRequest;

pub use response::ResponseError;
pub use response::XscpResponse;

pub use notification::NotificationError;
pub use notification::NotificationType;
pub use notification::XscpNotification;
