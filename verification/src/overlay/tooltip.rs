use crate::layout::edges::YAxis;
use crate::text::{all_ascii, ascii_lowercase, quoted_error, text_is, to_lowercase, unicode_lowercase};
use vstd::prelude::*;
use vstd::string::StringExecFns;

verus! {

/// Where the tooltip is placed when shown.
#[derive(Copy, Clone, Debug, PartialEq, Eq, Structural)]
#[non_exhaustive]
pub enum TooltipPlacement {
    /// Does not show a tooltip.
    Hide,
    /// Shows the tooltip to the left of the cursor.
    LeftCursor,
}

/// How the tooltip Y value table is sorted.
#[derive(Copy, Clone, Debug, PartialEq, Eq, Structural)]
#[non_exhaustive]
pub enum TooltipSortBy {
    /// Sorts by line name.
    Lines,
    /// Sorts by Y value in ascending order.
    Ascending,
    /// Sorts by Y value in descending order.
    Descending,
}

impl Default for TooltipPlacement {
    fn default() -> (r: Self)
        ensures
            r == TooltipPlacement::Hide,
    {
        TooltipPlacement::Hide
    }
}

impl Default for TooltipSortBy {
    fn default() -> (r: Self)
        ensures
            r == TooltipSortBy::Lines,
    {
        TooltipSortBy::Lines
    }
}

/// The displayed name of a placement.
pub open spec fn placement_name(p: TooltipPlacement) -> Seq<char> {
    match p {
        TooltipPlacement::Hide => "Hide"@,
        TooltipPlacement::LeftCursor => "Left cursor"@,
    }
}

/// The lowercase name a placement is parsed from.
pub open spec fn placement_key(p: TooltipPlacement) -> Seq<char> {
    match p {
        TooltipPlacement::Hide => "hide"@,
        TooltipPlacement::LeftCursor => "left cursor"@,
    }
}

/// The displayed name of a sort order.
pub open spec fn sort_by_name(s: TooltipSortBy) -> Seq<char> {
    match s {
        TooltipSortBy::Lines => "Lines"@,
        TooltipSortBy::Ascending => "Ascending"@,
        TooltipSortBy::Descending => "Descending"@,
    }
}

/// The lowercase name a sort order is parsed from.
pub open spec fn sort_by_key(s: TooltipSortBy) -> Seq<char> {
    match s {
        TooltipSortBy::Lines => "lines"@,
        TooltipSortBy::Ascending => "ascending"@,
        TooltipSortBy::Descending => "descending"@,
    }
}

/// The placement parsed from a lowercase name, if any.
pub open spec fn placement_for_key(key: Seq<char>) -> Option<TooltipPlacement> {
    if key == "hide"@ {
        Some(TooltipPlacement::Hide)
    } else if key == "left cursor"@ {
        Some(TooltipPlacement::LeftCursor)
    } else {
        None
    }
}

/// The sort order parsed from a lowercase name, if any.
pub open spec fn sort_by_for_key(key: Seq<char>) -> Option<TooltipSortBy> {
    if key == "lines"@ {
        Some(TooltipSortBy::Lines)
    } else if key == "ascending"@ {
        Some(TooltipSortBy::Ascending)
    } else if key == "descending"@ {
        Some(TooltipSortBy::Descending)
    } else {
        None
    }
}

/// The error message for text that names no placement.
pub open spec fn invalid_placement_message(s: Seq<char>) -> Seq<char> {
    "invalid TooltipPlacement: "@ + seq!['`'] + s + seq!['`']
}

/// The error message for text that names no sort order.
pub open spec fn invalid_sort_by_message(s: Seq<char>) -> Seq<char> {
    "invalid SortBy: "@ + seq!['`'] + s + seq!['`']
}

proof fn lemma_keys()
    ensures
        "hide"@ == seq!['h', 'i', 'd', 'e'],
        "left cursor"@ == seq!['l', 'e', 'f', 't', ' ', 'c', 'u', 'r', 's', 'o', 'r'],
        "lines"@ == seq!['l', 'i', 'n', 'e', 's'],
        "ascending"@ == seq!['a', 's', 'c', 'e', 'n', 'd', 'i', 'n', 'g'],
        "descending"@ == seq!['d', 'e', 's', 'c', 'e', 'n', 'd', 'i', 'n', 'g'],
{
    reveal_strlit("hide");
    reveal_strlit("left cursor");
    reveal_strlit("lines");
    reveal_strlit("ascending");
    reveal_strlit("descending");
}

impl TooltipPlacement {
    /// Parses a placement from its name, ignoring case.
    pub fn from_str(s: &str) -> (r: Result<Self, String>)
        ensures
            r matches Ok(p) ==> placement_for_key(unicode_lowercase(s@)) == Some(p),
            r matches Err(e) ==> placement_for_key(unicode_lowercase(s@)) is None
                && e@ == invalid_placement_message(s@),
            all_ascii(s@) ==> match placement_for_key(ascii_lowercase(s@)) {
                Some(p) => r == Ok::<Self, String>(p),
                None => r is Err,
            },
    {
        proof {
            lemma_keys();
        }
        let lower = to_lowercase(s);
        if text_is(lower.as_str(), "hide") {
            Ok(TooltipPlacement::Hide)
        } else if text_is(lower.as_str(), "left cursor") {
            Ok(TooltipPlacement::LeftCursor)
        } else {
            proof {
                reveal_strlit("invalid TooltipPlacement: ");
            }
            Err(quoted_error("invalid TooltipPlacement: ", s))
        }
    }

    /// The displayed name of the placement (what `Display` writes).
    pub fn to_string(&self) -> (r: String)
        ensures
            r@ == placement_name(*self),
    {
        match self {
            TooltipPlacement::Hide => String::from_str("Hide"),
            TooltipPlacement::LeftCursor => String::from_str("Left cursor"),
        }
    }
}

impl TooltipSortBy {
    /// Parses a sort order from its name, ignoring case.
    pub fn from_str(s: &str) -> (r: Result<Self, String>)
        ensures
            r matches Ok(o) ==> sort_by_for_key(unicode_lowercase(s@)) == Some(o),
            r matches Err(e) ==> sort_by_for_key(unicode_lowercase(s@)) is None
                && e@ == invalid_sort_by_message(s@),
            all_ascii(s@) ==> match sort_by_for_key(ascii_lowercase(s@)) {
                Some(o) => r == Ok::<Self, String>(o),
                None => r is Err,
            },
    {
        proof {
            lemma_keys();
        }
        let lower = to_lowercase(s);
        if text_is(lower.as_str(), "lines") {
            Ok(TooltipSortBy::Lines)
        } else if text_is(lower.as_str(), "ascending") {
            Ok(TooltipSortBy::Ascending)
        } else if text_is(lower.as_str(), "descending") {
            Ok(TooltipSortBy::Descending)
        } else {
            proof {
                reveal_strlit("invalid SortBy: ");
            }
            Err(quoted_error("invalid SortBy: ", s))
        }
    }

    /// The displayed name of the sort order (what `Display` writes).
    pub fn to_string(&self) -> (r: String)
        ensures
            r@ == sort_by_name(*self),
    {
        match self {
            TooltipSortBy::Lines => String::from_str("Lines"),
            TooltipSortBy::Ascending => String::from_str("Ascending"),
            TooltipSortBy::Descending => String::from_str("Descending"),
        }
    }
}

impl std::str::FromStr for TooltipPlacement {
    type Err = String;

    fn from_str(s: &str) -> (r: Result<Self, Self::Err>)
        ensures
            r matches Ok(p) ==> placement_for_key(unicode_lowercase(s@)) == Some(p),
            r matches Err(e) ==> placement_for_key(unicode_lowercase(s@)) is None
                && e@ == invalid_placement_message(s@),
            all_ascii(s@) ==> match placement_for_key(ascii_lowercase(s@)) {
                Some(p) => r == Ok::<Self, String>(p),
                None => r is Err,
            },
    {
        TooltipPlacement::from_str(s)
    }
}

impl std::str::FromStr for TooltipSortBy {
    type Err = String;

    fn from_str(s: &str) -> (r: Result<Self, Self::Err>)
        ensures
            r matches Ok(o) ==> sort_by_for_key(unicode_lowercase(s@)) == Some(o),
            r matches Err(e) ==> sort_by_for_key(unicode_lowercase(s@)) is None
                && e@ == invalid_sort_by_message(s@),
            all_ascii(s@) ==> match sort_by_for_key(ascii_lowercase(s@)) {
                Some(o) => r == Ok::<Self, String>(o),
                None => r is Err,
            },
    {
        TooltipSortBy::from_str(s)
    }
}

/// The tooltip shows while the mouse is over the inner chart, unless its
/// placement hides it.
pub fn tooltip_shown(hover_inner: bool, placement: TooltipPlacement) -> (r: bool)
    ensures
        r == (hover_inner && placement != TooltipPlacement::Hide),
{
    hover_inner && placement != TooltipPlacement::Hide
}

/// The text of a tooltip's Y value cell: the formatted value, or "-" when the
/// series has no value here.
pub fn y_cell_text(formatted: Option<String>) -> (r: String)
    ensures
        r@ == match formatted {
            Some(text) => text@,
            None => "-"@,
        },
{
    match formatted {
        Some(text) => text,
        None => String::from_str("-"),
    }
}

/// The axis whose formatter writes a Y value of a series on `axis`: the
/// secondary formatter when the series is on the secondary axis and one is
/// set, otherwise the primary formatter.
pub fn y_format_axis(axis: YAxis, has_secondary: bool) -> (r: YAxis)
    ensures
        r == if axis == YAxis::Secondary && has_secondary {
            YAxis::Secondary
        } else {
            YAxis::Primary
        },
{
    match axis {
        YAxis::Secondary if has_secondary => YAxis::Secondary,
        _ => YAxis::Primary,
    }
}

/// What a tooltip shows: a custom body replaces the header and the rows; a
/// custom header or custom rows are used only without a custom body.
#[derive(Copy, Clone, Debug, PartialEq, Eq, Structural)]
pub struct TooltipViews {
    /// The custom body is drawn.
    pub custom_body: bool,
    /// The custom X header is drawn.
    pub custom_x_header: bool,
    /// The custom Y rows are drawn.
    pub custom_y_row: bool,
}

/// Which custom views a tooltip draws, given which ones are set.
pub fn tooltip_views(has_body: bool, has_x_header: bool, has_y_row: bool) -> (r: TooltipViews)
    ensures
        r.custom_body == has_body,
        r.custom_x_header == (!has_body && has_x_header),
        r.custom_y_row == (!has_body && has_y_row),
{
    TooltipViews {
        custom_body: has_body,
        custom_x_header: !has_body && has_x_header,
        custom_y_row: !has_body && has_y_row,
    }
}

/// The displayed name of a placement is ASCII and lowercases to the name it is
/// parsed from, so parsing what is displayed gives the placement back.
pub proof fn lemma_placement_round_trip(p: TooltipPlacement)
    ensures
        all_ascii(placement_name(p)),
        placement_for_key(ascii_lowercase(placement_name(p))) == Some(p),
{
    lemma_keys();
    reveal_strlit("Hide");
    reveal_strlit("Left cursor");
    assert(ascii_lowercase(placement_name(p)) =~= placement_key(p));
}

/// The displayed name of a sort order is ASCII and lowercases to the name it
/// is parsed from, so parsing what is displayed gives the sort order back.
pub proof fn lemma_sort_by_round_trip(o: TooltipSortBy)
    ensures
        all_ascii(sort_by_name(o)),
        sort_by_for_key(ascii_lowercase(sort_by_name(o))) == Some(o),
{
    lemma_keys();
    reveal_strlit("Lines");
    reveal_strlit("Ascending");
    reveal_strlit("Descending");
    assert(ascii_lowercase(sort_by_name(o)) =~= sort_by_key(o));
}

} // verus!
