//! Schema types and validation helpers for mechanics-style HTTP endpoints and job
//! configuration: URL templates with slot policies, query emission rules, header layering with
//! case-insensitive allowlists, and a per-job endpoint map validated on construction.

pub mod config;
pub mod endpoint;
pub mod error;
pub mod headers;
pub mod query;
pub mod retry;
pub mod strmap;
pub mod template;
pub mod text;
mod urls;

pub use config::MechanicsConfig;
pub use endpoint::{
    EndpointBodyType, HttpEndpoint, HttpMethod, PreparedHttpEndpoint, QuerySpec, UrlParamSpec,
};
pub use error::{ConfigError, ErrorKind};
pub use query::SlottedQueryMode;
pub use retry::EndpointRetryPolicy;
pub use strmap::StringMap;
