//! Verified core of org-roamers: a server for org-roam note graphs.
pub mod api;
pub mod assets;
pub mod auth;
pub mod cache;
pub mod cli;
pub mod client;
pub mod config;
pub mod diff;
pub mod emacs;
pub mod file;
pub mod graph;
pub mod gui;
pub mod html;
pub mod keywords;
pub mod latex;
pub mod org;
pub mod orgtree;
pub mod page;
pub mod search;
pub mod text;
pub mod types;
