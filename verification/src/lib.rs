mod text;
pub mod tab;
pub mod input;
pub mod app;
pub mod cli;
pub mod order;
pub mod samplers;
pub mod ui;
pub mod observe;
