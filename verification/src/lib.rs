pub mod cast_check;
pub mod env;
pub mod infer;
pub mod report;
pub mod syntax;
pub mod types;
pub mod typing;
pub mod trans;
pub mod laws;
pub mod progress;
pub mod fresh;
pub mod rules;
