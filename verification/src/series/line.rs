use crate::ticks::decimal::{decimal_digits, format_u128};
use vstd::prelude::*;
use vstd::string::StringExecFns;

verus! {

/// The id of the SVG gradient of line `id`: `line_{id}_gradient`.
pub open spec fn gradient_id(id: nat) -> Seq<char> {
    "line_"@ + decimal_digits(id) + "_gradient"@
}

/// The stroke of a line: its gradient when it has one (a gradient overrides
/// the line color), otherwise its color.
pub fn line_stroke(id: usize, has_gradient: bool, color: &str) -> (r: String)
    ensures
        r@ == if has_gradient {
            "url(#"@ + gradient_id(id as nat) + ")"@
        } else {
            color@
        },
{
    if has_gradient {
        let s = String::from_str("url(#line_");
        let s = s.concat(format_u128(id as u128).as_str());
        let s = s.concat("_gradient)");
        proof {
            reveal_strlit("url(#line_");
            reveal_strlit("_gradient)");
            reveal_strlit("url(#");
            reveal_strlit("line_");
            reveal_strlit("_gradient");
            reveal_strlit(")");
            assert(s@ =~= "url(#"@ + gradient_id(id as nat) + ")"@);
        }
        s
    } else {
        String::from_str(color)
    }
}

} // verus!
