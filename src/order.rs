use vstd::prelude::*;
use vstd::multiset::Multiset;
use vstd::utf8::encode_utf8;
use crate::collect::ChildTotal;

verus! {

/// Lexicographic order on byte strings; a proper prefix comes first.
pub open spec fn bytes_le(a: Seq<u8>, b: Seq<u8>) -> bool
    decreases a.len(),
{
    if a.len() == 0 {
        true
    } else if b.len() == 0 {
        false
    } else if a[0] != b[0] {
        a[0] < b[0]
    } else {
        bytes_le(a.drop_first(), b.drop_first())
    }
}

/// Report order: by value ascending, equal values by the UTF-8 bytes of the name.
pub open spec fn row_le(x: ChildTotal, y: ChildTotal) -> bool {
    x.value < y.value || (x.value == y.value && bytes_le(encode_utf8(x.name@), encode_utf8(y.name@)))
}

/// Every row comes no later than the rows after it in report order.
pub open spec fn sorted_rows(s: Seq<ChildTotal>) -> bool {
    forall|i: int, j: int| 0 <= i < j < s.len() ==> row_le(#[trigger] s[i], #[trigger] s[j])
}

pub proof fn lemma_bytes_le_total(a: Seq<u8>, b: Seq<u8>)
    ensures
        bytes_le(a, b) || bytes_le(b, a),
    decreases a.len(),
{
    if a.len() > 0 && b.len() > 0 && a[0] == b[0] {
        lemma_bytes_le_total(a.drop_first(), b.drop_first());
    }
}

pub proof fn lemma_bytes_le_transitive(a: Seq<u8>, b: Seq<u8>, c: Seq<u8>)
    requires
        bytes_le(a, b),
        bytes_le(b, c),
    ensures
        bytes_le(a, c),
    decreases a.len(),
{
    if a.len() > 0 && b.len() > 0 && c.len() > 0 && a[0] == b[0] && b[0] == c[0] {
        lemma_bytes_le_transitive(a.drop_first(), b.drop_first(), c.drop_first());
    }
}

pub proof fn lemma_row_le_total(x: ChildTotal, y: ChildTotal)
    ensures
        row_le(x, y) || row_le(y, x),
{
    lemma_bytes_le_total(encode_utf8(x.name@), encode_utf8(y.name@));
}

pub proof fn lemma_row_le_transitive(x: ChildTotal, y: ChildTotal, z: ChildTotal)
    requires
        row_le(x, y),
        row_le(y, z),
    ensures
        row_le(x, z),
{
    if x.value == y.value && y.value == z.value {
        lemma_bytes_le_transitive(encode_utf8(x.name@), encode_utf8(y.name@), encode_utf8(z.name@));
    }
}

/// Compares two byte strings lexicographically.
fn bytes_le_exec(a: &[u8], b: &[u8]) -> (r: bool)
    ensures
        r == bytes_le(a@, b@),
{
    let mut i: usize = 0;
    assert(a@.skip(0) =~= a@);
    assert(b@.skip(0) =~= b@);
    while i < a.len() && i < b.len()
        invariant
            i <= a@.len(),
            i <= b@.len(),
            bytes_le(a@, b@) == bytes_le(a@.skip(i as int), b@.skip(i as int)),
        decreases a@.len() - i,
    {
        if a[i] != b[i] {
            return a[i] < b[i];
        }
        assert(a@.skip(i as int).drop_first() =~= a@.skip(i + 1));
        assert(b@.skip(i as int).drop_first() =~= b@.skip(i + 1));
        i = i + 1;
    }
    i == a.len()
}

/// Whether `x` comes no later than `y` in report order.
pub fn row_le_exec(x: &ChildTotal, y: &ChildTotal) -> (r: bool)
    ensures
        r == row_le(*x, *y),
{
    if x.value != y.value {
        x.value < y.value
    } else {
        bytes_le_exec(x.name.as_str().as_bytes(), y.name.as_str().as_bytes())
    }
}

/// The first position in the sorted `rows` whose row comes strictly after `x`.
fn insertion_point(rows: &Vec<ChildTotal>, x: &ChildTotal) -> (pos: usize)
    requires
        sorted_rows(rows@),
    ensures
        pos <= rows@.len(),
        forall|k: int| 0 <= k < pos ==> row_le(#[trigger] rows@[k], *x),
        forall|k: int| pos <= k < rows@.len() ==> !row_le(#[trigger] rows@[k], *x),
{
    let mut lo: usize = 0;
    let mut hi: usize = rows.len();
    while lo < hi
        invariant
            sorted_rows(rows@),
            lo <= hi <= rows@.len(),
            forall|k: int| 0 <= k < lo ==> row_le(#[trigger] rows@[k], *x),
            forall|k: int| hi <= k < rows@.len() ==> !row_le(#[trigger] rows@[k], *x),
        decreases hi - lo,
    {
        let mid = lo + (hi - lo) / 2;
        if row_le_exec(&rows[mid], x) {
            assert forall|k: int| 0 <= k < mid + 1 implies row_le(#[trigger] rows@[k], *x) by {
                if k < mid {
                    lemma_row_le_transitive(rows@[k], rows@[mid as int], *x);
                }
            }
            lo = mid + 1;
        } else {
            assert forall|k: int| mid <= k < rows@.len() implies !row_le(#[trigger] rows@[k], *x) by {
                if k > mid && row_le(rows@[k], *x) {
                    lemma_row_le_transitive(rows@[mid as int], rows@[k], *x);
                }
            }
            hi = mid;
        }
    }
    lo
}

/// Puts rows in report order: ascending value, equal values by name.
pub fn sort_rows(rows: Vec<ChildTotal>) -> (r: Vec<ChildTotal>)
    ensures
        r@.to_multiset() == rows@.to_multiset(),
        sorted_rows(r@),
{
    broadcast use vstd::seq_lib::group_to_multiset_ensures;

    let mut rest = rows;
    let mut out: Vec<ChildTotal> = Vec::new();
    while rest.len() > 0
        invariant
            out@.to_multiset().add(rest@.to_multiset()) == rows@.to_multiset(),
            sorted_rows(out@),
        decreases rest@.len(),
    {
        let ghost before = rest@;
        let x = rest.pop().unwrap();
        proof {
            assert(before =~= rest@.push(x));
        }
        let pos = insertion_point(&out, &x);
        let ghost old_out = out@;
        out.insert(pos, x);
        proof {
            vstd::seq_lib::to_multiset_insert(old_out, pos as int, x);
            assert(out@ =~= old_out.insert(pos as int, x));
            assert forall|i: int, j: int| 0 <= i < j < out@.len() implies row_le(
                #[trigger] out@[i],
                #[trigger] out@[j],
            ) by {
                if j < pos {
                } else if j == pos {
                } else if i > pos {
                    assert(out@[i] == old_out[i - 1]);
                    assert(out@[j] == old_out[j - 1]);
                } else if i == pos {
                    lemma_row_le_total(old_out[j - 1], x);
                } else {
                    assert(out@[j] == old_out[j - 1]);
                }
            }
            vstd::seq_lib::to_multiset_build(rest@, x);
            assert(out@.to_multiset().add(rest@.to_multiset()) =~= rows@.to_multiset()) by {
                broadcast use vstd::multiset::group_multiset_axioms;

            }
        }
    }
    assert(rest@.to_multiset() =~= Multiset::empty());
    assert(out@.to_multiset() =~= rows@.to_multiset());
    out
}

} // verus!
