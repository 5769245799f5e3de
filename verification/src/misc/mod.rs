//! Board scoring and random draws.

pub mod heuristics;
pub mod sampling;

pub use heuristics::{
    ceil_gap_heuristic, height_heuristic, heuristics, line_completion_heuristic, loss,
    surface_roughness_heuristic, N_HEURISTICS,
};
