//! Interface state that does not draw: the overlay menu and its settings,
//! which graphics protocol to use, the library tree, and what each action
//! does to the session.

pub mod graphics;
pub mod input;
pub mod library;
pub mod loading;
pub mod menu;
pub mod session;
pub mod startup;
