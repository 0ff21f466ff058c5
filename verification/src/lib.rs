pub mod fsm;
pub mod text;
pub mod types;
pub mod buffer;
pub mod config;
pub mod devices;
pub mod capture_select;
pub mod gpio;
pub mod storage_monitor;
pub mod engine;
pub mod gates;
pub mod capture_source;
pub mod pipeline;
pub mod setup_panel;
pub mod hotkeys;
pub mod format_probe;
pub mod device_watch;
pub mod chunk_index_actor;
pub mod capture_control;
pub mod launch;
pub mod device_monitor;
pub mod operator_ui;
pub mod displays;
