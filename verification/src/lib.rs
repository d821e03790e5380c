//! A DPI-evasion engine: protocol sniffing, first-segment fragmentation and a
//! rule-driven transform pipeline, each with machine-checked contracts.

pub mod backend;
pub mod buffers;
pub mod bypass;
pub mod config;
pub mod control;
pub mod dns;
pub mod error;
pub mod flow;
pub mod net;
pub mod pipeline;
pub mod request;
pub mod rules;
pub mod socks5;
pub mod stats;
pub mod text;
pub mod tls;
pub mod transform;

pub use bypass::{BypassConfig, BypassEngine, BypassResult, DetectedProtocol};
pub use config::Config;
pub use dns::DohResolver;
pub use error::EngineError;
pub use flow::{FlowContext, FlowKey, FlowState};
pub use pipeline::Pipeline;
pub use stats::Stats;
pub use tls::{parse_client_hello, ClientHelloInfo};
