pub mod analyzer_consumer;
pub mod api;
pub mod arknights_settings;
pub mod calendar;
pub mod calibration;
pub mod commands;
pub mod config;
pub mod config_wizard;
pub mod debug_recorder;
pub mod i18n;
pub mod icons;
pub mod json;
pub mod logging;
pub mod number;
pub mod overlay;
pub mod paths;
pub mod pc_cursor_guard;
pub mod profiles;
pub mod resources;
pub mod slint_win;
pub mod startup;
pub mod target_discovery;
pub mod telemetry;
pub mod text;
pub mod tray;
pub mod ui_state;
pub mod update_check;
pub mod worker;
pub mod worker_loop;
