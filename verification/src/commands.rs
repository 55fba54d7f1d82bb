//! The commands: what each one decides and reports.

pub mod doctor;
pub mod logs;
pub mod mutate;
pub mod select;
pub mod status;
