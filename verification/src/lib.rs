//! Verified core of a NixOS package manager front end.
pub mod text;
pub mod order;
pub mod manifest;
pub mod config;
pub mod flakes;
pub mod number;
pub mod search;
pub mod rebuild;
pub mod input;
pub mod vim;
pub mod session;
pub mod view;
