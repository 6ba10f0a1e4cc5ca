//! The project manifest (`buildk.toml`): its sections, the project settings,
//! the declared dependencies, output locations, and the classpath.
pub mod section;
pub mod toml;
pub mod dependencies;
pub mod dependency;
pub mod project;
pub mod layout;
pub mod classpath;
pub mod errors;
pub mod manifest;
