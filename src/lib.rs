//! The verified core of a local project-file server: naming policy, the
//! project file tree, the sandbox check on paths, file read and write
//! outcomes, the project list, the listener topology, the live-update
//! socket's decisions and the serving of the bundled client.
pub mod assets;
pub mod bootstrap;
pub mod classify;
pub mod guard;
pub mod logline;
pub mod order;
pub mod projects;
pub mod session;
pub mod store;
pub mod tree;
