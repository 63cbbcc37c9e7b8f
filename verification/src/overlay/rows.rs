use super::tooltip::TooltipSortBy;
use crate::layout::edges::YAxis;
use vstd::prelude::*;
use vstd::string::StrSliceExecFns;

verus! {

/// One Y value row of a tooltip: the series it belongs to and the value's
/// sort key.
#[derive(Debug, PartialEq)]
pub struct TooltipRow {
    /// The series id.
    pub id: usize,
    /// The series name.
    pub name: String,
    /// The Y axis of the series.
    pub axis: YAxis,
    /// The value's sort key, ordered as `f64::total_cmp` orders the value, or
    /// `None` when the value is missing: the series has no value here, or its
    /// value is not a number (see `value_key`).
    pub key: Option<i64>,
}

/// The sort key of a tooltip value: `None` for a missing value, where a value
/// that is not a number (NaN) counts as missing, and otherwise `order_key`,
/// the key that orders the value.
pub fn value_key(has_value: bool, is_nan: bool, order_key: i64) -> (r: Option<i64>)
    ensures
        r == (if has_value && !is_nan {
            Some(order_key)
        } else {
            None
        }),
{
    if has_value && !is_nan {
        Some(order_key)
    } else {
        None
    }
}

impl Clone for TooltipRow {
    fn clone(&self) -> (r: Self)
        ensures
            r == *self,
    {
        TooltipRow { id: self.id, name: self.name.clone(), axis: self.axis, key: self.key }
    }
}

/// Lexicographic comparison of two texts by character code (the order of
/// `String`'s `Ord`, since UTF-8 keeps code point order): -1, 0 or 1.
pub open spec fn text_order(a: Seq<char>, b: Seq<char>) -> int
    decreases a.len(),
{
    if a.len() == 0 {
        if b.len() == 0 {
            0
        } else {
            -1
        }
    } else if b.len() == 0 {
        1
    } else if (a[0] as u32) < (b[0] as u32) {
        -1
    } else if (a[0] as u32) > (b[0] as u32) {
        1
    } else {
        text_order(a.drop_first(), b.drop_first())
    }
}

/// Comparison of optional keys with a missing key first: -1, 0 or 1.
pub open spec fn key_order(a: Option<i64>, b: Option<i64>) -> int {
    match (a, b) {
        (None, None) => 0,
        (None, Some(_)) => -1,
        (Some(_), None) => 1,
        (Some(x), Some(y)) => if x < y {
            -1
        } else if x > y {
            1
        } else {
            0
        },
    }
}

/// Present keys compare as the integers they are, and a missing key comes
/// before every present one.
pub proof fn lemma_key_order_is_integer_order(x: i64, y: i64)
    ensures
        (key_order(Some(x), Some(y)) < 0) == (x < y),
        (key_order(Some(x), Some(y)) == 0) == (x == y),
        (key_order(Some(x), Some(y)) > 0) == (x > y),
        key_order(None, Some(y)) < 0,
        key_order(Some(x), None) > 0,
        key_order(None, None) == 0,
{
}

/// How two rows compare under a sort order: by name, by key ascending (a
/// missing key first), or by key descending (a missing key last).
pub open spec fn row_order(a: TooltipRow, b: TooltipRow, sort_by: TooltipSortBy) -> int {
    match sort_by {
        TooltipSortBy::Lines => text_order(a.name@, b.name@),
        TooltipSortBy::Ascending => key_order(a.key, b.key),
        TooltipSortBy::Descending => key_order(b.key, a.key),
    }
}

/// The rows that have a value.
pub open spec fn present_rows(rows: Seq<TooltipRow>) -> Seq<TooltipRow>
    decreases rows.len(),
{
    if rows.len() == 0 {
        Seq::empty()
    } else if rows.last().key is Some {
        present_rows(rows.drop_last()).push(rows.last())
    } else {
        present_rows(rows.drop_last())
    }
}

/// The rows a tooltip keeps: all of them, or those with a value when missing
/// values are skipped.
pub open spec fn kept_rows(rows: Seq<TooltipRow>, skip_missing: bool) -> Seq<TooltipRow> {
    if skip_missing {
        present_rows(rows)
    } else {
        rows
    }
}

/// `p` lists each index below `n` exactly once.
pub open spec fn is_index_permutation(p: Seq<int>, n: nat) -> bool {
    &&& p.len() == n
    &&& forall|i: int| 0 <= i < p.len() ==> 0 <= #[trigger] p[i] < n
    &&& forall|i: int, j: int| 0 <= i < p.len() && 0 <= j < p.len() && i != j ==> p[i] != p[j]
}

/// Row `a` comes before row `b` in a stable sort: it compares lower, or
/// equal and earlier.
pub open spec fn sorts_before(rows: Seq<TooltipRow>, sort_by: TooltipSortBy, a: int, b: int) -> bool {
    row_order(rows[a], rows[b], sort_by) < 0 || (row_order(rows[a], rows[b], sort_by) == 0 && a < b)
}

/// The order `p` of the rows is a stable sort.
pub open spec fn stably_sorted(rows: Seq<TooltipRow>, sort_by: TooltipSortBy, p: Seq<int>) -> bool {
    forall|i: int, j: int|
        0 <= i < j < p.len() ==> sorts_before(rows, sort_by, #[trigger] p[i], #[trigger] p[j])
}

/// Skipping missing values keeps exactly the rows that have a value, in their
/// order; without skipping every row is kept.
pub proof fn lemma_kept_rows_are_rows_with_values(rows: Seq<TooltipRow>)
    ensures
        kept_rows(rows, true) == rows.filter(|r: TooltipRow| r.key is Some),
        kept_rows(rows, false) == rows,
        forall|i: int|
            0 <= i < rows.len() ==> (#[trigger] rows[i].key is Some ==> kept_rows(
                rows,
                true,
            ).contains(rows[i])),
        forall|i: int|
            0 <= i < kept_rows(rows, true).len() ==> #[trigger] kept_rows(rows, true)[i].key is Some,
{
    lemma_present_rows_filter(rows);
    let pred = |r: TooltipRow| r.key is Some;
    assert forall|i: int| 0 <= i < kept_rows(rows, true).len() implies #[trigger] kept_rows(
        rows,
        true,
    )[i].key is Some by {
        rows.lemma_filter_pred(pred, i);
    }
    assert forall|i: int| 0 <= i < rows.len() && #[trigger] rows[i].key is Some implies kept_rows(
        rows,
        true,
    ).contains(rows[i]) by {
        rows.lemma_filter_contains(pred, i);
    }
}

proof fn lemma_present_rows_filter(rows: Seq<TooltipRow>)
    ensures
        present_rows(rows) == rows.filter(|r: TooltipRow| r.key is Some),
    decreases rows.len(),
{
    reveal(Seq::filter);
    if rows.len() > 0 {
        lemma_present_rows_filter(rows.drop_last());
    }
}

/// Rows sorted by ascending value: a present value never comes after a larger
/// one, and missing values come before present ones.
pub proof fn lemma_ascending_rows_in_value_order(rows: Seq<TooltipRow>, p: Seq<int>, i: int, j: int)
    requires
        is_index_permutation(p, rows.len()),
        stably_sorted(rows, TooltipSortBy::Ascending, p),
        0 <= i < j < p.len(),
    ensures
        rows[p[i]].key is Some && rows[p[j]].key is Some ==> rows[p[i]].key.unwrap()
            <= rows[p[j]].key.unwrap(),
        rows[p[i]].key is Some ==> rows[p[j]].key is Some,
{
    assert(sorts_before(rows, TooltipSortBy::Ascending, p[i], p[j]));
}

/// Rows sorted by descending value: a present value never comes after a
/// smaller one, and missing values come after present ones.
pub proof fn lemma_descending_rows_in_value_order(rows: Seq<TooltipRow>, p: Seq<int>, i: int, j: int)
    requires
        is_index_permutation(p, rows.len()),
        stably_sorted(rows, TooltipSortBy::Descending, p),
        0 <= i < j < p.len(),
    ensures
        rows[p[i]].key is Some && rows[p[j]].key is Some ==> rows[p[i]].key.unwrap()
            >= rows[p[j]].key.unwrap(),
        rows[p[j]].key is Some ==> rows[p[i]].key is Some,
{
    assert(sorts_before(rows, TooltipSortBy::Descending, p[i], p[j]));
}

proof fn lemma_text_order_antisymmetric(a: Seq<char>, b: Seq<char>)
    ensures
        text_order(a, b) == -text_order(b, a),
        -1 <= text_order(a, b) <= 1,
        text_order(a, b) == 0 ==> a == b,
    decreases a.len(),
{
    if a.len() > 0 && b.len() > 0 && (a[0] as u32) == (b[0] as u32) {
        lemma_text_order_antisymmetric(a.drop_first(), b.drop_first());
        if text_order(a, b) == 0 {
            vstd::utf8::char_u32_cast(a[0], a[0] as u32);
            vstd::utf8::char_u32_cast(b[0], b[0] as u32);
            assert(a[0] == b[0]);
            assert(a =~= seq![a[0]] + a.drop_first());
            assert(b =~= seq![b[0]] + b.drop_first());
        }
    }
}

proof fn lemma_text_order_transitive(a: Seq<char>, b: Seq<char>, c: Seq<char>)
    requires
        text_order(a, b) < 0,
        text_order(b, c) < 0,
    ensures
        text_order(a, c) < 0,
    decreases a.len(),
{
    if a.len() > 0 && b.len() > 0 && c.len() > 0 && (a[0] as u32) == (b[0] as u32) && (b[0] as u32)
        == (c[0] as u32) {
        lemma_text_order_transitive(a.drop_first(), b.drop_first(), c.drop_first());
    }
}

/// Names compare lexicographically by character code: after a common prefix
/// of length `k`, the first differing character decides, and a name that is
/// a proper prefix of the other comes first; a name equals itself.
pub proof fn lemma_text_order_is_lexicographic(a: Seq<char>, b: Seq<char>, k: int)
    requires
        0 <= k <= a.len(),
        k <= b.len(),
        forall|i: int| 0 <= i < k ==> a[i] == b[i],
    ensures
        k < a.len() && k < b.len() && (a[k] as u32) < (b[k] as u32) ==> text_order(a, b) == -1,
        k < a.len() && k < b.len() && (a[k] as u32) > (b[k] as u32) ==> text_order(a, b) == 1,
        k == a.len() && k < b.len() ==> text_order(a, b) == -1,
        k == b.len() && k < a.len() ==> text_order(a, b) == 1,
        text_order(a, a) == 0,
    decreases k,
{
    lemma_text_order_antisymmetric(a, a);
    if k > 0 {
        assert(a[0] == b[0]);
        lemma_text_order_is_lexicographic(a.drop_first(), b.drop_first(), k - 1);
    }
}

/// Row comparison is antisymmetric, and rows comparing equal compare alike
/// with every other row.
pub proof fn lemma_row_order_antisymmetric(a: TooltipRow, b: TooltipRow, sort_by: TooltipSortBy)
    ensures
        row_order(a, b, sort_by) == -row_order(b, a, sort_by),
        -1 <= row_order(a, b, sort_by) <= 1,
        row_order(a, b, sort_by) == 0 ==> forall|c: TooltipRow|
            row_order(a, c, sort_by) == row_order(b, c, sort_by),
{
    lemma_text_order_antisymmetric(a.name@, b.name@);
}

/// Row comparison is transitive.
pub proof fn lemma_row_order_transitive(
    a: TooltipRow,
    b: TooltipRow,
    c: TooltipRow,
    sort_by: TooltipSortBy,
)
    requires
        row_order(a, b, sort_by) < 0,
        row_order(b, c, sort_by) <= 0,
    ensures
        row_order(a, c, sort_by) < 0,
{
    lemma_row_order_antisymmetric(b, c, sort_by);
    if row_order(b, c, sort_by) == 0 {
        lemma_row_order_antisymmetric(a, b, sort_by);
        lemma_row_order_antisymmetric(a, c, sort_by);
        lemma_row_order_antisymmetric(c, a, sort_by);
        lemma_row_order_antisymmetric(b, a, sort_by);
    } else {
        if sort_by is Lines {
            lemma_text_order_transitive(a.name@, b.name@, c.name@);
        }
    }
}

/// Compares two texts character by character.
pub fn compare_text(a: &str, b: &str) -> (r: i8)
    ensures
        r == text_order(a@, b@),
{
    let la = a.unicode_len();
    let lb = b.unicode_len();
    let mut i: usize = 0;
    assert(a@.skip(0) =~= a@);
    assert(b@.skip(0) =~= b@);
    while i < la && i < lb
        invariant
            la == a@.len(),
            lb == b@.len(),
            0 <= i <= la,
            i <= lb,
            text_order(a@, b@) == text_order(a@.skip(i as int), b@.skip(i as int)),
        decreases la - i,
    {
        let ca = a.get_char(i) as u32;
        let cb = b.get_char(i) as u32;
        assert(a@.skip(i as int)[0] == a@[i as int]);
        assert(b@.skip(i as int)[0] == b@[i as int]);
        if ca < cb {
            return -1;
        }
        if ca > cb {
            return 1;
        }
        assert(a@.skip(i as int).drop_first() =~= a@.skip(i + 1));
        assert(b@.skip(i as int).drop_first() =~= b@.skip(i + 1));
        i = i + 1;
    }
    assert(a@.skip(i as int).len() == la - i);
    assert(b@.skip(i as int).len() == lb - i);
    if la == lb {
        0
    } else if i == la {
        -1
    } else {
        1
    }
}

/// Compares two rows under a sort order.
pub fn compare_rows(a: &TooltipRow, b: &TooltipRow, sort_by: TooltipSortBy) -> (r: i8)
    ensures
        r == row_order(*a, *b, sort_by),
{
    match sort_by {
        TooltipSortBy::Lines => compare_text(a.name.as_str(), b.name.as_str()),
        TooltipSortBy::Ascending => compare_keys(a.key, b.key),
        TooltipSortBy::Descending => compare_keys(b.key, a.key),
    }
}

fn compare_keys(a: Option<i64>, b: Option<i64>) -> (r: i8)
    ensures
        r == key_order(a, b),
{
    match (a, b) {
        (None, None) => 0,
        (None, Some(_)) => -1,
        (Some(_), None) => 1,
        (Some(x), Some(y)) => if x < y {
            -1
        } else if x > y {
            1
        } else {
            0
        },
    }
}

/// The tooltip's Y value rows: without the rows whose value is missing (no
/// value, or not a number) when `skip_missing` is set, then stably sorted by `sort_by` (by line name, by
/// value ascending, or by value descending).
pub fn tooltip_rows(rows: Vec<TooltipRow>, skip_missing: bool, sort_by: TooltipSortBy) -> (r: Vec<
    TooltipRow,
>)
    ensures
        r@.len() == kept_rows(rows@, skip_missing).len(),
        exists|p: Seq<int>|
            {
                &&& is_index_permutation(p, kept_rows(rows@, skip_missing).len())
                &&& stably_sorted(kept_rows(rows@, skip_missing), sort_by, p)
                &&& forall|i: int|
                    0 <= i < r@.len() ==> #[trigger] r@[i] == kept_rows(rows@, skip_missing)[p[i]]
            },
{
    // Skip missing?
    let mut kept: Vec<TooltipRow> = Vec::new();
    let mut i: usize = 0;
    while i < rows.len()
        invariant
            0 <= i <= rows@.len(),
            kept@ == kept_rows(rows@.subrange(0, i as int), skip_missing),
        decreases rows@.len() - i,
    {
        let ghost sub = rows@.subrange(0, i + 1);
        assert(sub.drop_last() =~= rows@.subrange(0, i as int));
        assert(sub.last() == rows@[i as int]);
        if !skip_missing || rows[i].key.is_some() {
            kept.push(rows[i].clone());
        }
        proof {
            if !skip_missing {
                assert(kept@ =~= sub);
            }
        }
        i = i + 1;
    }
    assert(rows@.subrange(0, rows@.len() as int) =~= rows@);
    let ghost ks = kept@;

    // Sort values: insert each row after the rows that do not compare above it
    let n = kept.len();
    let mut order: Vec<usize> = Vec::new();
    let mut m: usize = 0;
    while m < n
        invariant
            n == ks.len(),
            kept@ == ks,
            0 <= m <= n,
            order@.len() == m,
            forall|t: int| 0 <= t < order@.len() ==> #[trigger] order@[t] < m,
            forall|s: int, t: int|
                0 <= s < order@.len() && 0 <= t < order@.len() && s != t ==> order@[s] != order@[t],
            forall|s: int, t: int|
                0 <= s < t < order@.len() ==> sorts_before(
                    ks,
                    sort_by,
                    #[trigger] order@[s] as int,
                    #[trigger] order@[t] as int,
                ),
        decreases n - m,
    {
        let mut pos: usize = 0;
        while pos < order.len() && compare_rows(&kept[m], &kept[order[pos]], sort_by) >= 0
            invariant
                n == ks.len(),
                kept@ == ks,
                0 <= m < n,
                order@.len() == m,
                0 <= pos <= order@.len(),
                forall|t: int| 0 <= t < order@.len() ==> #[trigger] order@[t] < m,
                forall|t: int|
                    0 <= t < pos ==> row_order(ks[m as int], ks[#[trigger] order@[t] as int], sort_by)
                        >= 0,
            decreases order@.len() - pos,
        {
            pos = pos + 1;
        }
        let ghost old_order = order@;
        proof {
            // The new row sorts after the rows before `pos` and before the rest.
            assert forall|t: int| pos <= t < old_order.len() implies row_order(
                ks[m as int],
                ks[#[trigger] old_order[t] as int],
                sort_by,
            ) < 0 by {
                let first = old_order[pos as int] as int;
                if t > pos {
                    assert(sorts_before(ks, sort_by, first, old_order[t] as int));
                    lemma_row_order_transitive(
                        ks[m as int],
                        ks[first],
                        ks[old_order[t] as int],
                        sort_by,
                    );
                }
            }
            assert forall|t: int| 0 <= t < pos implies sorts_before(
                ks,
                sort_by,
                #[trigger] old_order[t] as int,
                m as int,
            ) by {
                lemma_row_order_antisymmetric(ks[m as int], ks[old_order[t] as int], sort_by);
            }
        }
        order.insert(pos, m);
        proof {
            let new_order = order@;
            assert(new_order =~= old_order.insert(pos as int, m));
            assert forall|s: int, t: int| 0 <= s < t < new_order.len() implies sorts_before(
                ks,
                sort_by,
                #[trigger] new_order[s] as int,
                #[trigger] new_order[t] as int,
            ) by {
                if t < pos {
                    assert(new_order[s] == old_order[s] && new_order[t] == old_order[t]);
                } else if t == pos {
                    assert(new_order[s] == old_order[s]);
                } else if s < pos {
                    assert(new_order[s] == old_order[s] && new_order[t] == old_order[t - 1]);
                } else if s == pos {
                    assert(new_order[t] == old_order[t - 1]);
                } else {
                    assert(new_order[s] == old_order[s - 1] && new_order[t] == old_order[t - 1]);
                }
            }
            assert forall|s: int, t: int|
                0 <= s < new_order.len() && 0 <= t < new_order.len() && s != t implies new_order[s]
                != new_order[t] by {
                if s < pos && t > pos {
                    assert(new_order[t] == old_order[t - 1]);
                } else if s > pos && t < pos {
                    assert(new_order[s] == old_order[s - 1]);
                } else if s > pos && t > pos {
                    assert(new_order[s] == old_order[s - 1] && new_order[t] == old_order[t - 1]);
                }
            }
        }
        m = m + 1;
    }

    // Collect the rows in sorted order
    let mut sorted: Vec<TooltipRow> = Vec::new();
    let mut j: usize = 0;
    while j < n
        invariant
            n == ks.len(),
            kept@ == ks,
            order@.len() == n,
            forall|t: int| 0 <= t < order@.len() ==> #[trigger] order@[t] < n,
            0 <= j <= n,
            sorted@.len() == j,
            forall|t: int| 0 <= t < j ==> #[trigger] sorted@[t] == ks[order@[t] as int],
        decreases n - j,
    {
        sorted.push(kept[order[j]].clone());
        j = j + 1;
    }
    let ghost p = order@.map_values(|x: usize| x as int);
    assert(is_index_permutation(p, ks.len()));
    assert(stably_sorted(ks, sort_by, p));
    assert(forall|i: int| 0 <= i < sorted@.len() ==> #[trigger] sorted@[i] == ks[p[i]]);
    sorted
}

} // verus!
