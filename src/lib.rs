pub mod diff;
pub mod export;
pub mod ids;
pub mod models;
pub mod profiles;
pub mod progress;
pub mod reconcile;
pub mod retry;
pub mod target;
