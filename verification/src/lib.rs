//! A package dependency graph engine.
//!
//! The library keeps two coupled views of one node/edge topology: an
//! interactive graph whose positions the user may move, and a mirror graph
//! advanced by a force-directed layout step. A sync engine reconciles the
//! two once per frame. An incremental builder grows the graph with a
//! package's dependencies, and a parser turns a package manager's textual
//! report into a structured record.
//!
//! Positions are whole-number coordinates; the layout step works in integer
//! fixed-point arithmetic throughout.

pub mod assoc;
pub mod fgraph;
pub mod force;
pub mod package_info;
pub mod state;
pub mod text;
