//! Core logic of a terminal chat client: the boot sequence, the local mirror
//! of a parent-linked conversation chain, request/response correlation over a
//! shared connection, and named persistent sessions.

pub mod app;
pub mod boot;
pub mod chain;
pub mod chat;
pub mod clock;
pub mod commands;
pub mod config;
pub mod config_manager;
pub mod directory;
pub mod display;
pub mod ident;
pub mod input;
pub mod payload;
pub mod persistence;
pub mod session_manager;
pub mod text;
