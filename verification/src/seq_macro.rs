pub mod expand;
pub mod input;
pub mod expand_four_errors;
pub mod parse_header;
pub mod repeat_section;
pub mod laws;
