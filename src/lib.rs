//! Resumable harvesting of an account's liked items: request addresses,
//! the author registry, page identities, pagination decisions and the
//! compiled collection, each stated and proved with Verus.

pub mod api_url;
pub mod args;
pub mod cache;
pub mod compile;
pub mod date;
pub mod dotenv;
pub mod dumps;
pub mod export;
pub mod model;
pub mod order;
pub mod registry;
pub mod resolver;
pub mod text;
