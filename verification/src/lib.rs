//! `yit`: track a YouTube playlist in a local directory.
//!
//! The verified core of the tool: playlist identifiers, the comparison of the
//! local track table with a fetched playlist, the rows written on sync, the
//! download plan and the decisions of the download loop, the sign-in helpers
//! of the API client, and the messages, reports and page that the commands
//! print or serve.
pub mod api;
pub mod auth;
pub mod commands;
pub mod config;
pub mod db;
pub mod error;
pub mod laws;
pub mod paths;
pub mod playlist;
pub mod status;
pub mod text;
pub mod web;
pub mod youtube;
