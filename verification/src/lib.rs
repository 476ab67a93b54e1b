use vstd::prelude::*;

pub mod text;
pub mod hotkeys;
pub mod proxy;
pub mod updater;
pub mod config;
pub mod startup;
pub mod error;
pub mod audio;
pub mod preprocess;
pub mod transcript;
pub mod engine;
pub mod event;
pub mod platform;
pub mod asr;
pub mod widget;
pub mod models;
pub mod history;
pub mod control;
pub mod session;
pub mod recorder;
pub mod retranscribe;
pub mod migrations;
pub mod spectral;
pub mod paths;
pub mod decode;
pub mod qwen;

verus! {

} // verus!
