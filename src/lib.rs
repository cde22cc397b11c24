//! Editor-session logic for a 2D scene editor: tool modes, selection
//! candidates and their disambiguation, confirmed selections and the
//! highlight proxies that follow them.

pub mod candidates;
pub mod geometry;
pub mod menu;
pub mod order;
pub mod scene;
pub mod scroll;
pub mod selection;
pub mod sprite;
pub mod tilemap;
pub mod tool;
pub mod ui;
