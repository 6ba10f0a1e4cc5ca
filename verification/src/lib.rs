//! The logic of BuildK, a small build tool for Kotlin: the project manifest
//! (`buildk.toml`) and its defaults, the build cache, package coordinates and
//! cache locations, the Maven and Gradle descriptors that name transitive
//! dependencies, dependency walks and trees, the build order of Kotlin files,
//! and the plans for compiling, running, testing and releasing a project.
//! Every function here is verified against its contract; reading and writing
//! files, running the Kotlin tools and downloading stand outside, in the
//! command line program.
pub mod text;
pub mod order;
pub mod package;
pub mod output;
pub mod cache;
pub mod gradle;
pub mod xml;
pub mod maven;
pub mod config;
pub mod fs_toml;
pub mod console;
pub mod http;
pub mod command;
pub mod pipeline;
pub mod artifacts;
pub mod laws;
