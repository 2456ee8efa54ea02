pub mod graph_renderer;
pub mod lanes;
pub mod styles;
pub mod text;
pub mod tui_graph;
pub mod tui_lanes;

use vstd::prelude::*;
use crate::utils::text::{decimal, decimal_u64, push_char};

verus! {

/// Writes `seconds` as a duration, as `"<seconds>s"`.
pub fn format_duration(seconds: u64) -> (r: String)
    ensures
        r@ == decimal(seconds as nat).push('s'),
{
    let mut r = decimal_u64(seconds);
    push_char(&mut r, 's');
    r
}

} // verus!
