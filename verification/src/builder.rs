pub mod model;
pub mod fields;
pub mod attrs;
pub mod expansion;
pub mod pieces;
pub mod method_chaining;
pub mod optional_field;
pub mod repeated_field;
pub mod laws;
