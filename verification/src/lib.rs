pub mod abd_node;
pub mod abd_system;
pub mod configuration_manager;
pub mod data_types;
pub mod entry;
pub mod hosts;
pub mod launch;
pub mod messages;
pub mod parse;
pub mod quorum;
pub mod register;
pub mod render;
pub mod register_array;
pub mod register_messages;
pub mod run_result;
pub mod scenario;
pub mod text;
pub mod types;
