//! A row-major matrix of cells, the geometry of its neighbours, and painting into it.
pub mod matrix;
pub mod rect;
pub mod vector2;
pub mod error;
pub mod app_error;
pub mod line;
pub mod paint;
pub mod event_loop;
