pub mod model;
pub mod names;
pub mod fn_args;
pub mod laws;
pub mod decls;
