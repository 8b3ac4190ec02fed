//! Choice of the recurrent library's output precision.
use crate::text::{is_set_to, set_to};
use vstd::prelude::*;

verus! {

/// Whether the recurrence writes single precision: the library has to export
/// the entry point, and `ATLAS_GDN_FI_F32_OUT=0` turns it off.
pub fn want_f32_output(has_symbol: bool, env: Option<&str>) -> (r: bool)
    ensures
        r == (has_symbol && !set_to(env, "0"@)),
{
    has_symbol && !is_set_to(env, "0")
}

} // verus!
