//! A small subscription-intake service library.
//!
//! The library holds the decision logic of the service: parsing a
//! form-encoded submission, routing a request, correlating a request with
//! its response, shaping the row to insert, and merging layered settings.
//! Network and database I/O stay outside; callers drive the functions here
//! with plain values and perform the effects they describe.

pub mod configuration;
pub mod form;
pub mod ids;
pub mod routes;
pub mod server;

use vstd::prelude::*;
use tracing_subscriber::layer::SubscriberExt;

verus! {

/// Install the process-wide tracing subscriber, once: structured JSON lines
/// on standard output, under the given service name, with the given default
/// verbosity. Returns whether this call installed it; once one is installed,
/// every later call leaves it in place and returns false.
pub fn init_subscriber(name: String, env_filter: String) -> (r: bool) {
    install_stdout_subscriber(name, env_filter)
}

/// Relies on tracing_subscriber's `Registry` and `EnvFilter`,
/// tracing_bunyan_formatter's `JsonStorageLayer` and `BunyanFormattingLayer`,
/// and `tracing::subscriber::set_global_default`: builds the process-wide
/// JSON tracing subscriber (writing to standard output) and installs it as
/// the global default. Returns whether installation succeeded; it fails when
/// a global subscriber is already set, so repeated calls are a no-op.
#[verifier::external_body]
fn install_stdout_subscriber(name: String, env_filter: String) -> (r: bool) {
    let filter = tracing_subscriber::EnvFilter::try_from_default_env()
        .unwrap_or_else(|_| tracing_subscriber::EnvFilter::new(env_filter));
    let formatting_layer =
        tracing_bunyan_formatter::BunyanFormattingLayer::new(name, std::io::stdout);
    let subscriber = tracing_subscriber::Registry::default()
        .with(filter)
        .with(tracing_bunyan_formatter::JsonStorageLayer)
        .with(formatting_layer);
    tracing::subscriber::set_global_default(subscriber).is_ok()
}

} // verus!
