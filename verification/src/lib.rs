//! A JSON-RPC 2.0 request/response engine.
//!
//! A transport hands the body of an exchange to a [`server::Server`]. The
//! server reads the body as JSON, validates each call of it, hands the valid
//! calls to the application over a channel, and puts the application's
//! responses and the validation errors together, in the order of the calls,
//! as the JSON text to send back.
//!
//! - [`json`]: JSON values, and how the engine reads and builds them.
//! - [`nesting`]: how deep a text nests.
//! - [`limits`]: the limits within which a body is handed to the parser.
//! - [`request`]: identifiers, parameters and requests.
//! - [`response`]: responses, error codes and JSON projections.
//! - [`validate`]: the envelope checks that make a request of a JSON value.
//! - [`dispatch`]: batches, and how their answers are put together.
//! - [`server`]: the server, its channel and its entry points.
//! - [`laws`]: what holds of the engine as a whole.

pub mod dispatch;
pub mod json;
pub mod laws;
pub mod limits;
pub mod nesting;
pub mod request;
pub mod response;
pub mod server;
pub mod validate;
