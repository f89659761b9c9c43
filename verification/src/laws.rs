//! What holds of the editor as a whole.

pub mod addresses;
pub mod asking;
pub mod checking;
pub mod drawing;
pub mod editing;
pub mod loading;
pub mod pressing;
pub mod removal;
pub mod showing;
pub mod storing;
pub mod strings;
pub mod views;
