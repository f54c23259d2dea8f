//! What the desktop and browser environment adapters decide on their own:
//! reading an action's wire form into their action vocabularies.

pub mod json;
pub mod computer;
pub mod browser;
