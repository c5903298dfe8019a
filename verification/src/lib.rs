//! voci: German ↔ English dictionary lookup, saved encounters and keyboard control.
use vstd::prelude::*;

pub mod strings;
pub mod domain;
pub mod clipboard;
pub mod completion;
pub mod config;
pub mod lookup;
pub mod microsoft;
pub mod navigation;
pub mod outcome;
pub mod panes;
pub mod screen;
pub mod runtime;
pub mod ordering;
pub mod presentation;
pub mod release;
pub mod service;
pub mod session;
pub mod setup;
pub mod history;
pub mod input;
pub mod keybindings;
pub mod text;
pub mod unicode;
pub mod wikdict;

verus! {

} // verus!
