pub mod result_text;
pub mod scratch;
