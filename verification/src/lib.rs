//! Meriadoc's verified core: the global configuration model and its path
//! normalisation, the task specification model and its validation, and the
//! structured audit events that every task execution produces.

pub mod audit;
pub mod config;
pub mod task_spec;
pub mod text;
pub mod validation;
