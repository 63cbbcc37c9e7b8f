use vstd::prelude::*;
use vstd::string::StringExecFns;

verus! {

/// Whether two pieces of text hold the same characters.
pub fn text_is(s: &str, literal: &str) -> (r: bool)
    ensures
        r == (s@ == literal@),
{
    String::from_str(s) == String::from_str(literal)
}

/// Builds `prefix`, then `s` in backquotes: the shape of a parse error message.
pub fn quoted_error(prefix: &str, s: &str) -> (r: String)
    ensures
        r@ == prefix@ + seq!['`'] + s@ + seq!['`'],
{
    proof {
        reveal_strlit("`");
    }
    let msg = String::from_str(prefix);
    let msg = msg.concat("`");
    let msg = msg.concat(s);
    msg.concat("`")
}

/// ASCII lowercase of one character: 'A'..='Z' become 'a'..='z', all other
/// characters stay.
pub open spec fn ascii_lower_char(c: char) -> char {
    if 'A' <= c && c <= 'Z' {
        ((c as u32) + 32) as char
    } else {
        c
    }
}

/// ASCII lowercase of a text, character by character.
pub open spec fn ascii_lowercase(s: Seq<char>) -> Seq<char> {
    s.map_values(|c: char| ascii_lower_char(c))
}

/// Every character is in the ASCII range.
pub open spec fn all_ascii(s: Seq<char>) -> bool {
    forall|i: int| 0 <= i < s.len() ==> (s[i] as u32) < 128
}

/// What `str::to_lowercase` returns for a text: its Unicode lowercase mapping.
pub uninterp spec fn unicode_lowercase(s: Seq<char>) -> Seq<char>;

/// Calls `str::to_lowercase`. Claimed: the result is the Unicode lowercase of
/// the text (named, not spelled out), and on an all-ASCII text it is the
/// character-by-character ASCII lowercase, which is what the Unicode mapping
/// does in the ASCII range.
#[verifier::external_body]
pub(crate) fn to_lowercase(s: &str) -> (r: String)
    ensures
        r@ == unicode_lowercase(s@),
        all_ascii(s@) ==> r@ == ascii_lowercase(s@),
{
    s.to_lowercase()
}

} // verus!
