use vstd::prelude::*;

pub mod text;
pub mod config;
pub mod store;
pub mod diagnostics;
pub mod diagnostic_run;
pub mod known_hosts;
pub mod host_key_prompt;
pub mod event_log;
pub mod manager;
pub mod socks5;
pub mod ssh_config;
pub mod i18n;
pub mod ui;
pub mod tunnel_form;
pub mod ssh_auth;
pub mod direct_diagnostics;
pub mod autostart;
pub mod edits;
