//! Infrared remote learning and transmission: protocol encoding, device
//! and capture decisions, code-library bookkeeping and status-LED
//! programs, each stated and proved over a mathematical model.

pub mod api;
pub mod config;
pub mod encoder;
pub mod error;
pub mod json;
pub mod lirc;
pub mod led;
pub mod manager;
pub mod proto;
pub mod rx;
pub mod store;
pub mod text;
pub mod tx;

pub use config::IrConfig;
pub use encoder::encode;
pub use error::IrError;
pub use manager::LearnedCode;
pub use proto::{proto_from_name, proto_name};
