//! Keeps generated gRPC controller stubs in step with the service definitions
//! they implement, without disturbing code a developer has already written.
//!
//! The pieces, leaves first:
//! - [`naming`]: the stable case conversion that ties definitions to files.
//! - [`text`]: character-level helpers shared by the other modules.
//! - [`parser`]: reads `service` / `rpc` declarations out of definition text.
//! - [`outline`]: the shape of an existing controller file, as the scanner sees it.
//! - [`scanner`]: what an existing controller already declares and where to add more.
//! - [`generator`]: the import names and method stubs that are still missing.
//! - [`patcher`]: splices text into a file at a line and column, touching nothing else.
//! - [`sync`]: decides, per service, between a fresh file and a patched one.
//! - [`registry`]: keeps the controllers' module index complete.
//! - [`helpers`], [`scaffold`], [`store`]: small utilities of the surrounding framework.
pub mod error;
pub mod generator;
pub mod helpers;
pub mod naming;
pub mod outline;
pub mod parser;
pub mod patcher;
pub mod registry;
pub mod scaffold;
pub mod scanner;
pub mod store;
pub mod sync;
pub mod text;
