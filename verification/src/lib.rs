//! An SMPP 3.4 addon for a scripting host: the decisions between the wire and
//! the script, verified.
pub mod auth;
pub mod config;
pub mod dispatch;
pub mod env;
pub mod limiter;
pub mod load;
pub mod metrics;
pub mod numbers;
pub mod order;
pub mod pdu;
pub mod plan;
pub mod readout;
pub mod receipt;
pub mod reply;
pub mod script;
pub mod sections;
pub mod sends;
pub mod sessions;
pub mod status;
pub mod submit;
pub mod supervisor;
pub mod text;
pub mod tlv;

pub use config::{InstallError, SmppConfig};
pub use pdu::Pdu;
pub use receipt::Receipt;
