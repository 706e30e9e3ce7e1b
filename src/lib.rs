pub mod enums;
pub mod errors;
pub mod expression;
pub mod laws;
pub mod parser;
pub mod text;
