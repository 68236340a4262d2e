use vstd::prelude::*;
use crate::text::{decimal, push_decimal, push_repeated, repeated};

verus! {

/// Number of cells in the progress bar.
pub const BAR_WIDTH: usize = 40;

/// Number of children between two redraws of the bar.
pub const REDRAW_EVERY: usize = 10;

/// Whether the bar is redrawn once `completed` of `total` children are done.
pub open spec fn redraw_due(completed: nat, total: nat) -> bool {
    completed % (REDRAW_EVERY as nat) == 0 || completed == total
}

/// Number of filled cells: `floor(width * completed / total)`, none when `total` is zero.
pub open spec fn filled_cells(completed: nat, total: nat) -> nat {
    if total == 0 {
        0
    } else {
        (BAR_WIDTH as nat * completed) / total
    }
}

/// The bar `[>>>---] completed/total`.
pub open spec fn bar_text(completed: nat, total: nat) -> Seq<char> {
    let f = filled_cells(completed, total);
    seq!['['] + repeated('>', f) + repeated('-', (BAR_WIDTH - f) as nat) + seq![']', ' ']
        + decimal(completed) + seq!['/'] + decimal(total)
}

/// Whether the bar is redrawn once `completed` of `total` children are done:
/// on every tenth child and on the last one.
pub fn redraw_due_exec(completed: usize, total: usize) -> (r: bool)
    ensures
        r == redraw_due(completed as nat, total as nat),
{
    completed % REDRAW_EVERY == 0 || completed == total
}

/// Renders the progress bar for `completed` of `total` children.
pub fn progress_bar(completed: usize, total: usize) -> (r: String)
    requires
        completed <= total,
    ensures
        r@ == bar_text(completed as nat, total as nat),
{
    let filled: usize = if total == 0 {
        0
    } else {
        let f = (BAR_WIDTH as u128 * completed as u128) / total as u128;
        assert(f <= 40) by (nonlinear_arith)
            requires
                f as int == (40 * completed as int) / total as int,
                completed <= total,
                total > 0;
        f as usize
    };
    let mut out = String::new();
    proof {
        reveal_strlit("[");
        reveal_strlit(">");
        reveal_strlit("-");
        reveal_strlit("] ");
        reveal_strlit("/");
    }
    out.append("[");
    push_repeated(&mut out, ">", filled);
    push_repeated(&mut out, "-", BAR_WIDTH - filled);
    out.append("] ");
    push_decimal(&mut out, completed as u128);
    out.append("/");
    push_decimal(&mut out, total as u128);
    assert(out@ =~= bar_text(completed as nat, total as nat));
    out
}

} // verus!
