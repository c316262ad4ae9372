//! Composition, execution bookkeeping and rendering of HTTP requests for an
//! interactive API client.
//!
//! A request slot (`http_request_view`) holds what a user edits; composing it
//! (`query`, `auth`, `environment`) gives the request handed to the transport;
//! the transport's outcome becomes a response record (`response`) whose text
//! is rendered by `format`; `session` routes results back to their slot and
//! tells its caller which outside work to carry out.
pub mod auth;
pub mod environment;
pub mod environment_manager;
pub mod format;
pub mod http_request_view;
pub mod key_value_editor;
pub mod query;
pub mod request;
pub mod response;
pub mod session;
pub mod text;
