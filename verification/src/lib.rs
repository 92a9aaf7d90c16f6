use vstd::prelude::*;

pub mod allocator;
pub mod app;
pub mod browser;
pub mod browser_screen;
pub mod compositor;
pub mod crash;
pub mod desktop;
pub mod e1000;
pub mod filemanager;
pub mod filemanager_screen;
pub mod fs;
pub mod interrupts;
pub mod keyboard;
pub mod names;
pub mod network;
pub mod notepad;
pub mod notepad_screen;
pub mod pci;
pub mod renderer;
pub mod rtc;
pub mod settings;
pub mod settings_screen;
pub mod taskmanager;
pub mod taskmanager_screen;
pub mod terminal;
pub mod terminal_screen;
pub mod text;
pub mod textflow;
pub mod timer;
pub mod window;

verus! {
} // verus!
