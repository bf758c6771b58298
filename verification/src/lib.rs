pub mod csv;
pub mod date;
pub mod decimal;
pub mod engine;
pub mod extractor;
pub mod loader;
pub mod order;
pub mod record;
pub mod reporter;
pub mod text;
pub mod traderjoes;
pub mod transformer;
