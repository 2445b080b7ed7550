//! MDE-Retro desktop shell: the verified core.
//!
//! Palette and metrics of the Windows 2000 Classic look, and the pure logic of
//! the shell's surfaces: text parsers for the tools it drives, the config-file
//! rewriters, the menu and setup-wizard state machines.

pub mod text;
pub mod lines;
pub mod palette;
pub mod metrics;
pub mod font;
pub mod autoplay;
pub mod browser;
pub mod fedora;
pub mod apps;
pub mod menu;
pub mod nm;
pub mod keyboard;
pub mod mouse;
pub mod outputs;
pub mod notifyd;
pub mod oobe;
pub mod greeter;
pub mod mount;
pub mod catalogue;
pub mod installer;
pub mod packages;
pub mod files;
pub mod display;
pub mod filedialog;
pub mod bluez;
pub mod explorer;
pub mod action_center;
pub mod dialogs;
pub mod cli;
pub mod control_panel;
pub mod net_flyout;
