//! Transfer engine: scanning intents into transfer jobs, copying files with
//! content-hash verification, and scheduling the jobs of an intent.
pub mod text;
pub mod models;
pub mod hashing;
pub mod copier;
pub mod store;
pub mod scanner;
pub mod scheduler;
pub mod graph_types;
