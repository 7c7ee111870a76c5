//! A GitHub repository seen as a file system.
//!
//! The library holds everything the mounted file system decides: how a repository is named and
//! found through the GitHub API, what the inode table looks like, how each file system request
//! changes it and is answered, and how file contents are read and overwritten.  The program
//! around it talks to the kernel, to GitHub and to the disk.

pub mod access;
pub mod cache;
pub mod clock;
pub mod content;
pub mod content_key;
pub mod directory;
pub mod file;
pub mod filesystem;
pub mod github_api;
pub mod handler;
pub mod key_index;
pub mod laws;
pub mod operation;
pub mod outcomes;
pub mod patterns;
pub mod storage;
pub mod text;
