//! nwebp: the verified core of a lightweight comic/image gallery server.

pub mod text;
pub mod natord;
pub mod sorting;
pub mod paths;
pub mod scanner;
pub mod cache;
pub mod handler;
pub mod pages;
pub mod template;
pub mod state;
