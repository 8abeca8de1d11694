//! Scans a tree of text documents, classifies each one, keeps one record per
//! file, plans the reorganized copy tree and renders a ranked report.

pub mod catalog;
pub mod classify;
pub mod cli;
pub mod placement;
pub mod ranking;
pub mod report;
pub mod tech;
pub mod viewer;
