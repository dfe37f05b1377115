pub mod printer;
pub mod ime;
pub mod ime_gtk;
pub mod ime_shell;
pub mod ime_state;
pub mod ime_policy;
pub mod cosmic;
pub mod apps;
pub mod power;
pub mod monitor;
pub mod usb;
pub mod display;
pub mod audio;
pub mod disk;
pub mod audio_parse;
pub mod audio_state;
pub mod usb_state;
pub mod clock;
