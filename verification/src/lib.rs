//! Request-dispatch core of an HTTP server toolkit: filters, path patterns,
//! typed extraction, routes, resources and response middleware, with the
//! behaviour of each part stated in contracts.

pub mod codec;
pub mod defaultheaders;
pub mod error;
pub mod extractor;
pub mod filter;
pub mod http;
pub mod join;
pub mod pattern;
pub mod request;
pub mod resource;
pub mod response;
pub mod route;
pub mod service;
pub mod state;
pub mod strutil;

pub use defaultheaders::DefaultHeaders;
pub use error::Error;
pub use extractor::Form;
pub use extractor::Json;
pub use extractor::Path;
pub use extractor::Query;
pub use filter::Filter;
pub use http::HeaderMap;
pub use http::Method;
pub use request::HttpRequest;
pub use request::Params;
pub use resource::Resource;
pub use response::Response;
pub use route::Route;
pub use route::RouteBuilder;
pub use service::Handler;
pub use service::HttpService;
pub use state::State;
