pub mod enums;
pub mod kv;
pub mod ids;
pub mod request;
pub mod project;
pub mod workspace;
pub mod persistence;
pub mod json;
pub mod events;
pub mod app_state;
pub mod sample_data;
pub mod project_borrow;
pub mod move_laws;
pub mod example_key;
pub mod borrow_laws;
pub mod chain_laws;
pub mod move_place_laws;
pub mod move_folder_laws;
pub mod kv_laws;
pub mod tab_laws;
