//! A request-building layer in front of an HTTP transport engine.
//!
//! A caller describes a request through [`Handle`] and [`Request`]; the
//! description is then turned into the ordered option calls and header
//! lines that the engine is to receive. The library performs no I/O itself:
//! it decides, call by call, what the engine is told next, and the caller's
//! driver carries each call to the engine and brings its answer back.

pub mod body;
pub mod decimal;
pub mod engine;
pub mod handle;
pub mod headers;
pub mod laws;
pub mod method;
pub mod model;
pub mod request;
pub mod transfer;

pub use body::Body;
pub use engine::{ErrCode, Opt, OptView, Outcome};
pub use handle::{Handle, HandleView, DEFAULT_TIMEOUT_MS};
pub use headers::{append_header, HeaderMultimap};
pub use method::Method;
pub use model::RequestView;
pub use request::{Draft, Request};
pub use transfer::{Step, StepView, Transfer, TransferView};
