pub mod extractor;
pub mod loader;
