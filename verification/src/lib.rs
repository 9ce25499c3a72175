//! Start-up, window hand-off and text selection for a terminal GUI.

pub mod command;
pub mod font_report;
pub mod handoff;
pub mod handoff_otel;
pub mod ls_fonts;
pub mod pane_tree;
pub mod publish;
pub mod selected;
pub mod selection;
pub mod startup;
pub mod text;
pub mod try_spawn;
pub mod workspace;
