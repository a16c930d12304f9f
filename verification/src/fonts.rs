//! Font selection for the interface.
//!
//! The surrounding application reads the two font faces from wherever the
//! platform keeps them; this decides whether custom fonts are used at all:
//! only when both faces are present — otherwise the interface keeps its
//! default fonts.

use vstd::prelude::*;

verus! {

/// Pair the regular and semibold font faces, or decline custom fonts when
/// either face is missing. The face data passes through unchanged.
pub fn get_fonts(regular: Option<Vec<u8>>, semibold: Option<Vec<u8>>) -> (r: Option<
    (Vec<u8>, Vec<u8>),
>)
    ensures
        match r {
            Some(pair) => regular == Some(pair.0) && semibold == Some(pair.1),
            None => regular is None || semibold is None,
        },
{
    match (regular, semibold) {
        (Some(reg), Some(semi)) => Some((reg, semi)),
        _ => None,
    }
}

} // verus!
