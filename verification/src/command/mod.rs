//! The decisions behind the command line tool's commands: parsing its
//! arguments, reading Kotlin file headers, walking dependencies, and tallying
//! what is cached.
pub mod cli;
pub mod coords;
pub mod header;
pub mod deps;
pub mod walk;
pub mod dep_tree;
pub mod clean;
pub mod build_tree;
pub mod plans;
pub mod init;
