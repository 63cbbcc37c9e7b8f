use vstd::prelude::*;
use vstd::string::StringExecFns;
use vstd::utf8::{encode_utf8, is_ascii_chars, is_ascii_chars_encode_utf8};

verus! {

/// The length of a text's UTF-8 encoding.
pub open spec fn utf8_len(s: Seq<char>) -> nat {
    encode_utf8(s).len()
}

/// The length in bytes of a text as `str::len` reports it (a `usize`).
pub open spec fn byte_len(s: Seq<char>) -> nat {
    (utf8_len(s) as usize) as nat
}

/// The byte length of the longest label, or 0 when there is none.
pub open spec fn longest_byte_len(labels: Seq<String>) -> nat
    decreases labels.len(),
{
    if labels.len() == 0 {
        0
    } else {
        let rest = longest_byte_len(labels.drop_last());
        let last = byte_len(labels.last()@);
        if last > rest {
            last
        } else {
            rest
        }
    }
}

/// `n` spaces.
pub open spec fn spaces(n: nat) -> Seq<char> {
    Seq::new(n, |i: int| ' ')
}

/// A label padded on the left with spaces up to `width` bytes.
pub open spec fn right_aligned(label: Seq<char>, width: nat) -> Seq<char> {
    spaces(if width >= byte_len(label) {
        (width - byte_len(label)) as nat
    } else {
        0
    }) + label
}

/// Encoding a concatenation concatenates the encodings.
pub proof fn lemma_encode_concat(a: Seq<char>, b: Seq<char>)
    ensures
        encode_utf8(a + b) == encode_utf8(a) + encode_utf8(b),
    decreases a.len(),
{
    if a.len() == 0 {
        assert(a + b =~= b);
        assert(encode_utf8(a) =~= Seq::<u8>::empty());
        assert(encode_utf8(a) + encode_utf8(b) =~= encode_utf8(b));
    } else {
        assert((a + b).drop_first() =~= a.drop_first() + b);
        assert((a + b)[0] == a[0]);
        lemma_encode_concat(a.drop_first(), b);
        let head = vstd::utf8::encode_scalar(a[0] as u32);
        assert(encode_utf8(a + b) == head + encode_utf8(a.drop_first() + b));
        assert(head + (encode_utf8(a.drop_first()) + encode_utf8(b)) =~= (head + encode_utf8(
            a.drop_first(),
        )) + encode_utf8(b));
    }
}

/// Spaces take one byte each.
pub proof fn lemma_spaces_byte_len(n: nat)
    ensures
        utf8_len(spaces(n)) == n,
{
    assert(is_ascii_chars(spaces(n)));
    is_ascii_chars_encode_utf8(spaces(n));
}

/// Every label is at most as long as the longest one.
pub proof fn lemma_longest_byte_len(labels: Seq<String>)
    ensures
        forall|i: int| 0 <= i < labels.len() ==> byte_len(#[trigger] labels[i]@) <= longest_byte_len(labels),
        labels.len() > 0 ==> exists|i: int| 0 <= i < labels.len() && byte_len(#[trigger] labels[i]@)
            == longest_byte_len(labels),
    decreases labels.len(),
{
    if labels.len() > 0 {
        let rest = labels.drop_last();
        lemma_longest_byte_len(rest);
        assert forall|i: int| 0 <= i < labels.len() implies byte_len(#[trigger] labels[i]@)
            <= longest_byte_len(labels) by {
            if i < labels.len() - 1 {
                assert(labels[i] == rest[i]);
            }
        }
        if byte_len(labels.last()@) > longest_byte_len(rest) || rest.len() == 0 {
            assert(byte_len(labels[labels.len() - 1]@) == longest_byte_len(labels));
        } else {
            let j = choose|j: int| 0 <= j < rest.len() && byte_len(#[trigger] rest[j]@)
                == longest_byte_len(rest);
            assert(labels[j] == rest[j]);
        }
    }
}

/// The byte length of the longest label, or 0 when there is none.
pub fn longest_label_len(labels: &Vec<String>) -> (r: usize)
    ensures
        r == longest_byte_len(labels@),
{
    let mut longest: usize = 0;
    let mut i: usize = 0;
    while i < labels.len()
        invariant
            0 <= i <= labels@.len(),
            longest == longest_byte_len(labels@.subrange(0, i as int)),
        decreases labels@.len() - i,
    {
        let len = labels[i].as_str().len();
        assert(len == byte_len(labels@[i as int]@));
        assert(labels@.subrange(0, i + 1).drop_last() =~= labels@.subrange(0, i as int));
        assert(labels@.subrange(0, i + 1).last() == labels@[i as int]);
        if len > longest {
            longest = len;
        }
        i = i + 1;
    }
    assert(labels@.subrange(0, labels@.len() as int) =~= labels@);
    longest
}

/// The number of character cells a column of tick labels needs: the longest
/// label, but at least `min_chars`.
pub fn tick_label_chars(labels: &Vec<String>, min_chars: usize) -> (r: usize)
    ensures
        r == if longest_byte_len(labels@) > min_chars {
            longest_byte_len(labels@)
        } else {
            min_chars as nat
        },
{
    let longest = longest_label_len(labels);
    if longest > min_chars {
        longest
    } else {
        min_chars
    }
}

fn spaces_string(n: usize) -> (r: String)
    ensures
        r@ == spaces(n as nat),
{
    proof {
        reveal_strlit(" ");
    }
    let mut s = String::from_str("");
    proof {
        reveal_strlit("");
    }
    let mut i: usize = 0;
    while i < n
        invariant
            0 <= i <= n,
            s@ =~= spaces(i as nat),
        decreases n - i,
    {
        proof {
            reveal_strlit(" ");
        }
        s = s.concat(" ");
        i = i + 1;
    }
    s
}

/// Pads labels on the left with spaces so that all have the byte length of
/// the longest one.
pub fn align_tick_labels(labels: Vec<String>) -> (r: Vec<String>)
    ensures
        r@.len() == labels@.len(),
        forall|i: int|
            0 <= i < r@.len() ==> #[trigger] r@[i]@ == right_aligned(
                labels@[i]@,
                longest_byte_len(labels@),
            ),
{
    // Find longest label length
    let min_label = longest_label_len(&labels);
    // Pad labels to same length
    let mut aligned: Vec<String> = Vec::new();
    let mut i: usize = 0;
    while i < labels.len()
        invariant
            0 <= i <= labels@.len(),
            min_label == longest_byte_len(labels@),
            aligned@.len() == i,
            forall|j: int|
                0 <= j < i ==> #[trigger] aligned@[j]@ == right_aligned(labels@[j]@, min_label as nat),
        decreases labels@.len() - i,
    {
        let label = &labels[i];
        let len = label.as_str().len();
        assert(len == byte_len(labels@[i as int]@));
        let pad = if min_label >= len {
            min_label - len
        } else {
            0
        };
        let padded = spaces_string(pad).concat(label.as_str());
        aligned.push(padded);
        i = i + 1;
    }
    aligned
}

/// Aligned labels all have the byte length of the longest label.
pub proof fn lemma_aligned_labels_same_length(labels: Seq<String>)
    requires
        forall|i: int| 0 <= i < labels.len() ==> utf8_len(#[trigger] labels[i]@) <= usize::MAX,
    ensures
        forall|i: int|
            0 <= i < labels.len() ==> byte_len(
                right_aligned(#[trigger] labels[i]@, longest_byte_len(labels)),
            ) == longest_byte_len(labels),
{
    lemma_longest_byte_len(labels);
    assert forall|i: int| 0 <= i < labels.len() implies byte_len(
        right_aligned(#[trigger] labels[i]@, longest_byte_len(labels)),
    ) == longest_byte_len(labels) by {
        let w = longest_byte_len(labels);
        let l = labels[i]@;
        let n = (w - byte_len(l)) as nat;
        assert(byte_len(l) == utf8_len(l));
        lemma_encode_concat(spaces(n), l);
        lemma_spaces_byte_len(n);
    }
}

} // verus!
