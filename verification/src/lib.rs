pub mod collector;
pub mod joiner;
pub mod reconcile;
pub mod report;
pub mod task;
pub mod text;
pub mod worker;
