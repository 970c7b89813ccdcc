//! The rules of the DeepSeek Harness desktop shell: when the local kernel is started, stopped
//! and given up, which paths and pages may be reached, how updates proceed, and what the sidebar
//! finds and shows. Files, processes, sockets and windows are the application's own.
pub mod bridge;
pub mod bytes;
pub mod config;
pub mod content;
pub mod files;
pub mod git;
pub mod json;
pub mod menu;
pub mod number;
pub mod outside;
pub mod search;
pub mod server;
pub mod sort;
pub mod supervisor;
pub mod text;
pub mod update;
pub mod version;
pub mod viewer;
pub mod walk;
pub mod watchdog;
