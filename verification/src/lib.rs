//! `openshell_fractal`: Fractal Code runtime integration for OpenShell.
//!
//! This crate makes Fractal an execution mode within OpenShell:
//!
//! - **Cell runner**: executes Fractal cells inside OpenShell sandboxes, with policy derived from
//!   channel declarations and constitutional gating. Scaffolds run cells in order.
//! - **Constitution**: Fractal's compile-time checks (banned patterns, structural signatures, taint
//!   inheritance).
//! - **Channel mapper**: compiles Fractal's typed channel scopes into OpenShell policy blocks.
//! - **Cell files and reports**: reads `.fc` cell files, and words what the commands print.
//!
//! ```text
//! .fc cell file (YAML + JS logic)
//!     |
//!     +-- constitution::validate_cell()  <- structural hash + pattern scan
//!     +-- channel_mapper::map_all()      <- channels -> policy blocks
//!     +-- cell_runner::execute_cell()    <- gate -> sandbox -> run -> collect
//! ```

pub mod cell_file;
pub mod cell_runner;
pub mod channel_mapper;
pub mod classification;
pub mod constitution;
pub mod json;
pub mod json_text;
pub mod laws;
pub mod laws_of_cells;
pub mod laws_of_channels;
pub mod laws_of_reports;
pub mod laws_of_text;
pub mod outside;
pub mod policy;
pub mod report;
pub mod sandbox;
pub mod scaffold;
pub mod schema;
pub mod text;

pub use cell_runner::{execute_cell, CellError};
pub use channel_mapper::{map_all, map_channel, MappingResult};
pub use constitution::validate_cell;
pub use scaffold::{execute_scaffold, ScaffoldResult};
pub use schema::{
    CellHealth, CellOutput, ClassificationLevel, ConstitutionalCheck, FractalCell, FractalConfig,
    FractalScaffold, TypedChannelConfig,
};
