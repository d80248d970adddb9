//! Concrete-struct dependency injection.
//!
//! Dependency clients are plain values whose methods are backed by function
//! pointers. A client is resolved from a stack of scoped override layers and
//! falls back to its live implementation when no layer overrides it. The
//! `client!` and `#[derive(Depends)]` expansions are computed here from a
//! token model of their input.

pub mod client;
pub mod dependency;
pub mod depends;
pub mod error;
pub mod http;
pub mod overrides;
pub mod random;
pub mod text;
pub mod tokens;

pub use client::{
    expand_client, maybe_comma, parse_argument, parse_arguments, parse_method, parse_methods,
    with_trailing_space, Argument, Method, MethodModel,
};
pub use dependency::{get, Dependency};
pub use depends::{
    derive_depends_impl, expand_struct, parse_field, parse_fields, Field, FieldModel,
};
pub use error::DependencyError;
pub use http::{HttpClientError, HttpMethod, HttpRequest, HttpResponse};
pub use overrides::{OverrideBuilder, OverrideGuard, OverrideStack};
pub use random::{random_bytes, random_u64};
pub use text::decimal_string;
pub use tokens::{
    ident_at, is_ident, matches_attribute, matches_dep_attribute, split_top_level,
    stream_to_string, tokens_to_string, Delimiter, Spacing, TokenTree,
};
