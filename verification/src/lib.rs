//! An HTTP request inspector: captured requests, their rendering for a
//! console, and the decisions of the capture pipeline.

pub mod body;
pub mod capture;
pub mod console;
pub mod form;
pub mod highlight;
pub mod mime;
pub mod request;
pub mod server;
pub mod styling;
pub mod text;

pub use capture::RequestLogger;
pub use request::Request;
