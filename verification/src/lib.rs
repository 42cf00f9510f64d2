//! Live print overlay for Bambu printers.
pub mod auth;
pub mod bambu;
pub mod certificate;
pub mod cli;
pub mod cloud;
pub mod config;
pub mod devices;
pub mod local;
pub mod mqtt;
pub mod overlay;
pub mod retry;
pub mod table;
pub mod text;
pub mod time;
pub mod video;
pub mod web;
