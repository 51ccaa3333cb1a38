pub mod catalog;
pub mod chain;
pub mod preset;
pub mod menu;
pub mod screen;
