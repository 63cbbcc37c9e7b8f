use crate::text::{quoted_error, text_is};
use vstd::prelude::*;
use vstd::string::StringExecFns;

verus! {

/// Align over mouse or nearest data.
#[derive(Copy, Clone, Debug, PartialEq, Eq, Structural)]
#[non_exhaustive]
pub enum AlignOver {
    /// Align over the mouse position.
    Mouse,
    /// Align over the nearest data. Creates a "snap to data" effect.
    Data,
}

impl Default for AlignOver {
    fn default() -> (r: Self)
        ensures
            r == AlignOver::Mouse,
    {
        AlignOver::Mouse
    }
}

/// The name of an alignment, as written and as parsed.
pub open spec fn align_over_name(a: AlignOver) -> Seq<char> {
    match a {
        AlignOver::Mouse => "mouse"@,
        AlignOver::Data => "data"@,
    }
}

/// The alignment a name parses to, if any.
pub open spec fn align_over_for_name(s: Seq<char>) -> Option<AlignOver> {
    if s == "mouse"@ {
        Some(AlignOver::Mouse)
    } else if s == "data"@ {
        Some(AlignOver::Data)
    } else {
        None
    }
}

/// The error message for text that names no alignment.
pub open spec fn invalid_align_over_message(s: Seq<char>) -> Seq<char> {
    "invalid align over: "@ + seq!['`'] + s + seq!['`']
}

impl AlignOver {
    /// Parses an alignment from its name.
    pub fn from_str(s: &str) -> (r: Result<Self, String>)
        ensures
            r matches Ok(a) ==> align_over_for_name(s@) == Some(a),
            r matches Err(e) ==> align_over_for_name(s@) is None && e@
                == invalid_align_over_message(s@),
    {
        if text_is(s, "mouse") {
            Ok(AlignOver::Mouse)
        } else if text_is(s, "data") {
            Ok(AlignOver::Data)
        } else {
            proof {
                reveal_strlit("invalid align over: ");
            }
            Err(quoted_error("invalid align over: ", s))
        }
    }

    /// The name of the alignment (what `Display` writes).
    pub fn to_string(&self) -> (r: String)
        ensures
            r@ == align_over_name(*self),
    {
        match self {
            AlignOver::Mouse => String::from_str("mouse"),
            AlignOver::Data => String::from_str("data"),
        }
    }
}

impl std::str::FromStr for AlignOver {
    type Err = String;

    fn from_str(s: &str) -> (r: Result<Self, Self::Err>)
        ensures
            r matches Ok(a) ==> align_over_for_name(s@) == Some(a),
            r matches Err(e) ==> align_over_for_name(s@) is None && e@
                == invalid_align_over_message(s@),
    {
        AlignOver::from_str(s)
    }
}

/// Parsing the written name of an alignment gives it back.
pub proof fn lemma_align_over_round_trip(a: AlignOver)
    ensures
        align_over_for_name(align_over_name(a)) == Some(a),
{
    reveal_strlit("mouse");
    reveal_strlit("data");
    assert("data"@ != "mouse"@) by {
        assert("data"@.len() != "mouse"@.len());
    }
}

} // verus!
