//! Conventional commit messages from GitHub Copilot: what the program decides and computes,
//! from the command line to the message, apart from input and output.

pub mod auth;
pub mod cli;
pub mod commands;
pub mod copilot;
pub mod diff_stat;
pub mod git;
pub mod hook;
pub mod http;
pub mod login;
pub mod message;
pub mod outside;
pub mod paths;
pub mod prompt;
pub mod text;
