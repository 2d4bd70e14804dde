//! Building blocks that do not know about chemistry.

pub mod coeff_vec;
pub mod peek_iter;
pub mod text;
