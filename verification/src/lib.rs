pub mod modes;
pub mod text;
pub mod editor;
pub mod input;
pub mod ui;
pub mod laws;
