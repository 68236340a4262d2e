use vstd::prelude::*;
use crate::aggregate::{EntryKind, Mode};
use crate::collect::ChildTotal;
use crate::format::{
    grouped, histogram_marks, hundredths_text, marks, percent_hundredths, push_grouped,
    push_percent, push_size, size_text,
};
use crate::order::{sort_rows, sorted_rows};
use crate::text::{decimal, padded, push_decimal, push_padded, push_repeated, repeated};

verus! {

/// Length of the histogram bar of the largest child.
pub const MAX_MARKS: usize = 20;

/// The mark appended to a child's name: `@` for a symbolic link, `/` for a
/// directory, nothing for anything else.
pub open spec fn suffix_of(kind: EntryKind) -> Seq<char> {
    match kind {
        EntryKind::Symlink => seq!['@'],
        EntryKind::Dir => seq!['/'],
        _ => Seq::empty(),
    }
}

/// How an aggregate is written: a scaled size in [`Mode::Size`], the plain
/// count in [`Mode::Inodes`], with `'` between groups of three digits when
/// `grouping` is set.
pub open spec fn magnitude_text(mode: Mode, grouping: bool, v: nat) -> Seq<char> {
    match mode {
        Mode::Size => size_text(v),
        Mode::Inodes => if grouping {
            grouped(v)
        } else {
            decimal(v)
        },
    }
}

/// Sum of the rows' values.
pub open spec fn sum_values(rows: Seq<ChildTotal>) -> nat
    decreases rows.len(),
{
    if rows.len() == 0 {
        0
    } else {
        sum_values(rows.drop_last()) + rows.last().value as nat
    }
}

/// Taking one row out of a sequence takes its value out of the sum.
pub proof fn lemma_sum_values_remove(rows: Seq<ChildTotal>, i: int)
    requires
        0 <= i < rows.len(),
    ensures
        sum_values(rows) == sum_values(rows.remove(i)) + rows[i].value,
    decreases rows.len(),
{
    if i == rows.len() - 1 {
        assert(rows.remove(i) =~= rows.drop_last());
    } else {
        assert(rows.remove(i).drop_last() =~= rows.drop_last().remove(i));
        lemma_sum_values_remove(rows.drop_last(), i);
    }
}

/// The total of a set of rows does not depend on their order: two sequences
/// holding the same rows, each as many times, have the same sum.
pub proof fn lemma_sum_values_permutation(a: Seq<ChildTotal>, b: Seq<ChildTotal>)
    requires
        a.to_multiset() == b.to_multiset(),
    ensures
        sum_values(a) == sum_values(b),
    decreases a.len(),
{
    broadcast use vstd::seq_lib::group_to_multiset_ensures;

    if a.len() == 0 {
        assert(a.to_multiset().len() == 0);
        assert(b.to_multiset().len() == 0);
    } else {
        let x = a.last();
        assert(a =~= a.drop_last().push(x));
        assert(a.to_multiset().count(x) > 0);
        assert(b.contains(x));
        let j = choose|j: int| 0 <= j < b.len() && b[j] == x;
        vstd::seq_lib::to_multiset_remove(b, j);
        vstd::seq_lib::to_multiset_build(a.drop_last(), x);
        assert(a.drop_last().to_multiset() =~= b.remove(j).to_multiset()) by {
            broadcast use vstd::multiset::group_multiset_axioms;

        }
        lemma_sum_values_permutation(a.drop_last(), b.remove(j));
        lemma_sum_values_remove(b, j);
    }
}

/// Largest of the rows' values, zero when there is none.
pub open spec fn max_value(rows: Seq<ChildTotal>) -> nat
    decreases rows.len(),
{
    if rows.len() == 0 {
        0
    } else if rows.last().value > max_value(rows.drop_last()) {
        rows.last().value as nat
    } else {
        max_value(rows.drop_last())
    }
}

/// One line of the table: magnitude, percentage, histogram bar and name.
pub open spec fn row_line(mode: Mode, grouping: bool, row: ChildTotal, total: nat, max: nat) -> Seq<
    char,
> {
    padded(magnitude_text(mode, grouping, row.value as nat), 14) + seq![' '] + padded(
        hundredths_text(percent_hundredths(row.value as nat, total)),
        6,
    ) + seq![' '] + padded(repeated('#', marks(row.value as nat, max, MAX_MARKS as nat)), 20)
        + seq![' '] + padded(row.name@, 10) + seq!['\n']
}

/// The lines of `rows`, in the order given.
pub open spec fn rows_text(mode: Mode, grouping: bool, rows: Seq<ChildTotal>, total: nat, max: nat) -> Seq<
    char,
>
    decreases rows.len(),
{
    if rows.len() == 0 {
        Seq::empty()
    } else {
        rows_text(mode, grouping, rows.drop_last(), total, max) + row_line(
            mode,
            grouping,
            rows.last(),
            total,
            max,
        )
    }
}

/// Title and column heads.
pub open spec fn header_text(dirname: Seq<char>, mode: Mode) -> Seq<char> {
    "\n\nStatistics of directory \""@ + dirname + "\" :\n\n"@ + padded(
        if mode == Mode::Inodes {
            "inodes"@
        } else {
            "Size"@
        },
        14,
    ) + seq![' '] + padded("In %"@, 6) + seq![' '] + padded("Histogram"@, 20) + seq![' '] + padded(
        "Name"@,
        10,
    ) + seq!['\n']
}

/// The line that reports skipped, unreadable entries, if there were any.
pub open spec fn unreadable_text(unreadable: bool) -> Seq<char> {
    if unreadable {
        padded("Permission denied"@, (22 + MAX_MARKS) as nat) + seq![' '] + padded("<root>"@, 10)
            + seq!['\n']
    } else {
        Seq::empty()
    }
}

/// The closing line with the total.
pub open spec fn footer_text(mode: Mode, grouping: bool, total: nat) -> Seq<char> {
    "\nTotal directory size: "@ + magnitude_text(mode, grouping, total) + "\n\n"@
}

/// The whole report for rows already in report order.
pub open spec fn report_text(
    dirname: Seq<char>,
    mode: Mode,
    grouping: bool,
    rows: Seq<ChildTotal>,
    unreadable: bool,
) -> Seq<char> {
    header_text(dirname, mode) + unreadable_text(unreadable) + rows_text(
        mode,
        grouping,
        rows,
        sum_values(rows),
        max_value(rows),
    ) + footer_text(mode, grouping, sum_values(rows))
}

/// The mark for an entry of kind `kind`: `@`, `/` or the empty string.
pub fn type_suffix(kind: EntryKind) -> (r: &'static str)
    ensures
        r@ == suffix_of(kind),
{
    proof {
        reveal_strlit("@");
        reveal_strlit("/");
        reveal_strlit("");
    }
    match kind {
        EntryKind::Symlink => "@",
        EntryKind::Dir => "/",
        _ => "",
    }
}

/// The name shown for a child: `name` followed by its kind's mark when
/// `append_suffix` is set.
pub fn display_name(name: &str, kind: EntryKind, append_suffix: bool) -> (r: String)
    ensures
        r@ == if append_suffix {
            name@ + suffix_of(kind)
        } else {
            name@
        },
{
    let mut out = String::from_str(name);
    if append_suffix {
        out.append(type_suffix(kind));
    }
    out
}

/// Appends an aggregate written as [`magnitude_text`] says.
fn push_magnitude(out: &mut String, mode: Mode, grouping: bool, v: u128)
    ensures
        final(out)@ == old(out)@ + magnitude_text(mode, grouping, v as nat),
{
    match mode {
        Mode::Size => push_size(out, v),
        Mode::Inodes => if grouping {
            push_grouped(out, v);
        } else {
            push_decimal(out, v);
        },
    }
}

/// Appends `s` padded to `width` characters.
fn push_padded_string(out: &mut String, s: &String, width: usize)
    ensures
        final(out)@ == old(out)@ + padded(s@, width as nat),
{
    push_padded(out, s.as_str(), width);
}

/// Sum and largest value of `rows`.
fn sum_and_max(rows: &Vec<ChildTotal>) -> (r: (u128, u64))
    ensures
        r.0 == sum_values(rows@),
        r.1 == max_value(rows@),
        forall|k: int| 0 <= k < rows@.len() ==> (#[trigger] rows@[k]).value <= r.1,
{
    let mut total: u128 = 0;
    let mut max: u64 = 0;
    let mut i: usize = 0;
    while i < rows.len()
        invariant
            i <= rows@.len(),
            total == sum_values(rows@.take(i as int)),
            total <= i * (u64::MAX as nat),
            max == max_value(rows@.take(i as int)),
            forall|k: int| 0 <= k < i ==> (#[trigger] rows@[k]).value <= max,
        decreases rows@.len() - i,
    {
        assert(rows@.take(i + 1).drop_last() =~= rows@.take(i as int));
        let v = rows[i].value;
        assert(total + v <= (i + 1) * (u64::MAX as nat)) by (nonlinear_arith)
            requires
                total <= i * (u64::MAX as nat),
                v <= u64::MAX;
        assert((i + 1) * (u64::MAX as nat) <= u64::MAX as nat * u64::MAX as nat) by (nonlinear_arith)
            requires
                i < u64::MAX;
        total = total + v as u128;
        if v > max {
            max = v;
        }
        i = i + 1;
    }
    assert(rows@.take(i as int) =~= rows@);
    (total, max)
}

/// Appends the title and the column heads, and the line for skipped
/// unreadable entries when `unreadable` is set.
fn push_header(out: &mut String, dirname: &str, mode: Mode, unreadable: bool)
    ensures
        final(out)@ == old(out)@ + header_text(dirname@, mode) + unreadable_text(unreadable),
{
    let ghost start = out@;
    out.append("\n\nStatistics of directory \"");
    out.append(dirname);
    out.append("\" :\n\n");
    if mode == Mode::Inodes {
        push_padded(out, "inodes", 14);
    } else {
        push_padded(out, "Size", 14);
    }
    proof {
        reveal_strlit(" ");
        reveal_strlit("\n");
    }
    out.append(" ");
    push_padded(out, "In %", 6);
    out.append(" ");
    push_padded(out, "Histogram", 20);
    out.append(" ");
    push_padded(out, "Name", 10);
    out.append("\n");
    assert(out@ =~= start + header_text(dirname@, mode));
    if unreadable {
        push_padded(out, "Permission denied", 22 + MAX_MARKS);
        out.append(" ");
        push_padded(out, "<root>", 10);
        out.append("\n");
    }
    assert(out@ =~= start + header_text(dirname@, mode) + unreadable_text(unreadable));
}

/// Appends the line of one row.
fn push_row(out: &mut String, mode: Mode, grouping: bool, row: &ChildTotal, total: u128, max: u64)
    requires
        row.value <= max,
    ensures
        final(out)@ == old(out)@ + row_line(mode, grouping, *row, total as nat, max as nat),
{
    proof {
        reveal_strlit(" ");
        reveal_strlit("\n");
        reveal_strlit("#");
    }
    let mut cell = String::new();
    push_magnitude(&mut cell, mode, grouping, row.value as u128);
    push_padded_string(out, &cell, 14);
    out.append(" ");
    let mut pct = String::new();
    push_percent(&mut pct, row.value, total);
    push_padded_string(out, &pct, 6);
    out.append(" ");
    let n = histogram_marks(row.value, max, MAX_MARKS);
    let mut bar = String::new();
    push_repeated(&mut bar, "#", n);
    push_padded_string(out, &bar, 20);
    out.append(" ");
    push_padded_string(out, &row.name, 10);
    out.append("\n");
    assert(final(out)@ =~= old(out)@ + row_line(mode, grouping, *row, total as nat, max as nat));
}

/// Appends the lines of `rows`, in the order given.
fn push_rows(out: &mut String, mode: Mode, grouping: bool, rows: &Vec<ChildTotal>, total: u128, max: u64)
    requires
        forall|k: int| 0 <= k < rows@.len() ==> (#[trigger] rows@[k]).value <= max,
    ensures
        final(out)@ == old(out)@ + rows_text(mode, grouping, rows@, total as nat, max as nat),
{
    let ghost start = out@;
    let mut i: usize = 0;
    assert(start =~= start + rows_text(mode, grouping, rows@.take(0), total as nat, max as nat));
    while i < rows.len()
        invariant
            i <= rows@.len(),
            forall|k: int| 0 <= k < rows@.len() ==> (#[trigger] rows@[k]).value <= max,
            out@ == start + rows_text(mode, grouping, rows@.take(i as int), total as nat, max as nat),
        decreases rows@.len() - i,
    {
        assert(rows@.take(i + 1).drop_last() =~= rows@.take(i as int));
        push_row(out, mode, grouping, &rows[i], total, max);
        i = i + 1;
        assert(out@ =~= start + rows_text(mode, grouping, rows@.take(i as int), total as nat, max as nat));
    }
    assert(rows@.take(i as int) =~= rows@);
}

/// Renders the report for the children `rows` of the directory `dirname`:
/// a title, the column heads, a line for skipped unreadable entries when
/// `unreadable` is set, one line per child in report order (ascending value,
/// equal values by name) and the total.
pub fn render_report(
    dirname: &str,
    mode: Mode,
    grouping: bool,
    rows: Vec<ChildTotal>,
    unreadable: bool,
) -> (r: String)
    ensures
        exists|sorted: Seq<ChildTotal>|
            {
                &&& sorted.to_multiset() == rows@.to_multiset()
                &&& sorted_rows(sorted)
                &&& sum_values(sorted) == sum_values(rows@)
                &&& r@ == report_text(dirname@, mode, grouping, sorted, unreadable)
            },
{
    let ghost given = rows@;
    let sorted = sort_rows(rows);
    proof {
        lemma_sum_values_permutation(sorted@, given);
    }
    let (total, max) = sum_and_max(&sorted);
    let mut out = String::new();
    push_header(&mut out, dirname, mode, unreadable);
    push_rows(&mut out, mode, grouping, &sorted, total, max);
    let mut footer = String::new();
    footer.append("\nTotal directory size: ");
    push_magnitude(&mut footer, mode, grouping, total);
    footer.append("\n\n");
    assert(footer@ =~= footer_text(mode, grouping, total as nat));
    out.append(footer.as_str());
    assert(out@ =~= report_text(dirname@, mode, grouping, sorted@, unreadable));
    out
}

} // verus!
