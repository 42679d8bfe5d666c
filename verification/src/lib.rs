pub mod errors;
pub mod json;
pub mod mcp_management;
pub mod member;
pub mod model_definition;
pub mod model_provider;
pub mod orchestration_runtime;
pub mod outside;
pub mod text;
