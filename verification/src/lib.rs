pub mod text;
pub mod decimal;
pub mod types;
pub mod controller_commands;
pub mod telemetry;
pub mod controller;
pub mod consts;
pub mod startup;
pub mod service;
pub mod camera;
pub mod window;
pub mod classify;
