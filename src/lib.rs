//! Extraction, per-student reorganisation and validation bookkeeping for
//! archives of submitted web-technology assignments.

pub mod archive;
pub mod cleanup;
pub mod error;
pub mod grade;
pub mod reorganize;
pub mod schemas;
pub mod student;
pub mod text;
pub mod validate;
