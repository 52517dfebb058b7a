pub mod weekday;
pub mod day_text;
pub mod clock;
pub mod schedule;
pub mod settings;
pub mod state;
pub mod tray;
pub mod autostart;
