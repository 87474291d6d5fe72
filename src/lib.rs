//! Audits a tree of Nix sources for files and directories that can be moved
//! or renamed without breaking the relative path literals that point at them.
pub mod reference;
pub mod tree;
pub mod extract;
pub mod analysis;
pub mod laws;
