pub mod text;
pub mod models;
pub mod edid;
pub mod fixed;
pub mod validation;
pub mod workspace;
pub mod install;
pub mod hyprland_config;
pub mod export;
pub mod cli;
pub mod demo;
pub mod report;
pub mod timings;
pub mod discovery;
pub mod doctor;
pub mod hyprland;
pub mod editor;
pub mod browser;
pub mod clipboard;
pub mod detailed_editor;
pub mod system_action;
