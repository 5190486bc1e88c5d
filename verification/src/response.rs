//! Turning a classified outcome into a complete wire-format response.
pub mod builder;
pub mod factory;
pub mod final_response;
pub mod json_builder;
pub mod types;
pub mod utils;
