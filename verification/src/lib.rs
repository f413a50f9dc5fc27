//! Verified core of the Ray media toolkit: text handling, settings
//! persistence formats, applet state machines and engine bookkeeping.

pub mod anki;
pub mod api;
pub mod audio;
pub mod capture;
pub mod console;
pub mod dictionary;
pub mod engine;
pub mod hotkeys;
pub mod imaging;
pub mod nodes;
pub mod numbers;
pub mod paths;
pub mod progress;
pub mod registry;
pub mod router;
pub mod shaders;
pub mod sorting;
pub mod text;
pub mod threed;
