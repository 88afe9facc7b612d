pub mod token;
pub mod syntax;
pub mod seq_macro;
pub mod builder;
pub mod enum_builder;
