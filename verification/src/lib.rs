//! A fixed-size two-dimensional array with bounds-checked access, two
//! traversal orders and the usual geometric transforms.

pub mod array;
pub mod grid;
pub mod laws;
pub mod layout;
pub mod transform;
pub mod traverse;

pub use crate::array::{Array2, Array2Error};
