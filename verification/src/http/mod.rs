//! HTTP layer logic: response reading, normalisation and retry policy.

pub mod decode;
pub mod fetcher;
pub mod normalizer;

pub use fetcher::FetcherConfig;
pub use normalizer::Normalizer;
