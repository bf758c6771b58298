pub mod transformer;
