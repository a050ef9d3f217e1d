//! Decision logic of the launch-script panels of a game launcher's actions toolbar:
//! which controls a script's panel shows, what they start from, when its parameter
//! controls may be edited, and what each user action writes to the settings store.

pub mod actions;
pub mod laws;
pub mod panel;
pub mod parse;
pub mod script;
pub mod settings;
