//! Routing of requests to model providers, and the adapter for the Anthropic interface.
//!
//! [`router`] keeps the state of the router and decides on each request; [`selection`],
//! [`circuit`] and [`watch`] hold the parts of it. The adapter reads the settings of a
//! [`provider`] and prepares requests and replies; [`url`] joins its addresses. [`laws`] states
//! what holds of several of these together; [`adapter_laws`] and [`routing_laws`] state what each
//! operation does in terms of its inputs. [`json`] and [`text`] say what the functions of
//! `serde_json` and of the standard library return that the rest calls.

pub mod adapter_laws;
pub mod circuit;
pub mod claude;
pub mod json;
pub mod laws;
pub mod provider;
pub mod router;
pub mod routing_laws;
pub mod selection;
pub mod string_map;
pub mod text;
pub mod url;
pub mod watch;
