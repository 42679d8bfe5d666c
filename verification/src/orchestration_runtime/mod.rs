pub mod answer_presentation;
pub mod callbacks;
pub mod compile_context;
pub mod compiled_plan;
pub mod data_model_runtime;
pub mod debug_artifacts;
pub mod debug_event_persister;
pub mod debug_stream_events;
pub mod gateway_billing;
pub mod json_payload;
pub mod live_debug_run;
pub mod observability;
pub mod run_steps;
