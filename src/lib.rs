//! A file explorer's logic: the navigation state with its history, paths
//! as text, directory listings and their order, the scene-file manifest,
//! and the messages passed between the filesystem side and the interface.
use vstd::prelude::*;

pub mod bridge;
pub mod config;
pub mod explorer;
pub mod fs;
pub mod manifest;
pub mod paths;
pub mod preview;
pub mod scene;
pub mod ui_events;
pub mod view_state;
pub mod warnings;

verus! {

} // verus!
