//! What the screens show.

pub mod card_laws;
pub mod cards;
pub mod chart;
pub mod chart_laws;
pub mod drawing;
pub mod geometry;
pub mod heatmap;
pub mod limit_laws;
pub mod limits;
pub mod resets;
pub mod screen;
pub mod screen_laws;
pub mod values;
pub mod wrap;
