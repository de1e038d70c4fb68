//! The rules of a file gateway for browsers in the local network: who is let
//! in, which shares they may open, and how files are sent to them.
//!
//! The library decides; it neither listens nor reads files. A program around it
//! accepts requests, asks the library what to do, and does it.
pub mod addr;
pub mod admission;
pub mod admission_laws;
pub mod api_error;
pub mod assets;
pub mod auth_attempts;
pub mod configuration_laws;
pub mod content;
pub mod content_laws;
pub mod cookies;
pub mod dates;
pub mod gateway;
pub mod gateway_laws;
pub mod guard_laws;
pub mod headers;
pub mod holders;
pub mod network_guard;
pub mod numbers;
pub mod order;
pub mod random;
pub mod ranges;
pub mod security_headers;
pub mod session;
pub mod session_laws;
pub mod settings;
pub mod shares;
pub mod status;
pub mod stream_limits;
pub mod supervisor;
pub mod text;
pub mod text_laws;
pub mod vec_map;

pub use settings::{
    WebGatewayBindMode, WebGatewayError, WebGatewaySettings, WebGatewayStatus,
    DEFAULT_WEB_GATEWAY_PORT,
};
pub use supervisor::WebGatewaySupervisor;
