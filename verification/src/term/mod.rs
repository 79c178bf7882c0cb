//! Terminal state around the vt engine.
pub mod feed_script;
pub mod mode;
pub mod osc52;
pub mod osc7;
pub mod render_state;
pub mod selection;
pub mod snapshot;
pub mod terminal;
