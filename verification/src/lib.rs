//! Verified core of the Agwaita desktop shell services.
pub mod text;
pub mod signal;
pub mod error;
pub mod accent_color;
pub mod dark_mode;
pub mod dnd;
pub mod power_mode;
pub mod airplane_mode;
pub mod network;
pub mod calendar;
pub mod notifications;
pub mod wm;
pub mod privacy;
pub mod bluetooth;
pub mod systray;
pub mod time;
pub mod battery;
pub mod cli;
pub mod brightness;
pub mod audio;
