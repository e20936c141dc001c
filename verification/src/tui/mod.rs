pub mod app;
pub mod area;
pub mod control;
pub mod keys;
pub mod views;
