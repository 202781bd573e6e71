//! Files that travel over a remote desktop's clipboard.

pub mod bridge;
pub mod descriptor;
pub mod listing;
pub mod stream;
