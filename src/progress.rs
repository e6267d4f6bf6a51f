use vstd::arithmetic::div_mod::lemma_div_by_multiple_is_strongly_ordered;
use vstd::prelude::*;

verus! {

/// The width of the progress bar, in cells.
pub const BAR_WIDTH: usize = 50;

/// The percentage done and the number of filled cells after `count` of
/// `length` bytes; complete once `count` reaches `length`.
pub open spec fn spec_progress(count: nat, length: nat) -> (nat, nat) {
    if count >= length {
        (100, BAR_WIDTH as nat)
    } else {
        ((100 * count) / length, ((BAR_WIDTH as nat) * count) / length)
    }
}

proof fn lemma_scaled_below(count: nat, length: nat, scale: nat)
    requires
        count < length,
        scale > 0,
    ensures
        (scale * count) / length < scale,
{
    assert(scale * count < scale * length) by (nonlinear_arith)
        requires
            count < length,
            scale > 0,
    ;
    lemma_div_by_multiple_is_strongly_ordered((scale * count) as int, (scale * length) as int, scale as int, length as int);
    assert(((scale * length) as int) / (length as int) == scale) by (nonlinear_arith)
        requires
            length > 0,
    ;
}

/// How far a download has come: the percentage and the filled cells of the
/// bar.
pub fn progress(count: usize, length: usize) -> (r: (usize, usize))
    ensures
        (r.0 as nat, r.1 as nat) == spec_progress(count as nat, length as nat),
        r.0 <= 100,
        r.1 <= BAR_WIDTH,
{
    if count >= length {
        (100, BAR_WIDTH)
    } else {
        proof {
            lemma_scaled_below(count as nat, length as nat, 100);
            lemma_scaled_below(count as nat, length as nat, BAR_WIDTH as nat);
        }
        let c = count as u128;
        let l = length as u128;
        assert(100 * c <= 100 * 0xffff_ffff_ffff_ffffu128) by (nonlinear_arith)
            requires
                c <= 0xffff_ffff_ffff_ffffu128,
        ;
        let percent = (100 * c) / l;
        let cols = (50 * c) / l;
        (percent as usize, cols as usize)
    }
}

/// The cell of the bar at `i` when `cols` cells are filled: filled cells,
/// then an arrow head, then blanks.
pub open spec fn bar_cell(cols: nat, i: nat) -> u8 {
    if i < cols {
        '=' as u8
    } else if i == cols {
        '>' as u8
    } else {
        ' ' as u8
    }
}

/// The progress bar with `cols` filled cells.
pub fn progress_bar(cols: usize) -> (r: Vec<u8>)
    requires
        cols <= BAR_WIDTH,
    ensures
        r@.len() == BAR_WIDTH,
        forall|i: int| 0 <= i < BAR_WIDTH ==> #[trigger] r@[i] == bar_cell(cols as nat, i as nat),
{
    let mut bar: Vec<u8> = Vec::new();
    let mut i: usize = 0;
    while i < BAR_WIDTH
        invariant
            0 <= i <= BAR_WIDTH,
            bar@.len() == i,
            forall|j: int| 0 <= j < i ==> #[trigger] bar@[j] == bar_cell(cols as nat, j as nat),
        decreases BAR_WIDTH - i,
    {
        let cell: u8 = if i < cols {
            0x3d
        } else if i == cols {
            0x3e
        } else {
            0x20
        };
        bar.push(cell);
        i = i + 1;
    }
    bar
}

/// The unit that a byte count is shown in.
#[derive(Clone, Copy, Debug, PartialEq, Eq, Structural)]
pub enum SizeUnit {
    B,
    KB,
    MB,
    GB,
}

/// A byte count as it is shown: in the largest unit of which it holds at
/// least ten, rounded down.
pub open spec fn spec_display_size(count: nat) -> (nat, SizeUnit) {
    if count >= 10_000_000_000 {
        (count / 1_000_000_000, SizeUnit::GB)
    } else if count >= 10_000_000 {
        (count / 1_000_000, SizeUnit::MB)
    } else if count >= 10_000 {
        (count / 1_000, SizeUnit::KB)
    } else {
        (count, SizeUnit::B)
    }
}

/// The shown size of a byte count.
pub fn display_size(count: u64) -> (r: (u64, SizeUnit))
    ensures
        (r.0 as nat, r.1) == spec_display_size(count as nat),
{
    if count >= 10_000_000_000 {
        (count / 1_000_000_000, SizeUnit::GB)
    } else if count >= 10_000_000 {
        (count / 1_000_000, SizeUnit::MB)
    } else if count >= 10_000 {
        (count / 1_000, SizeUnit::KB)
    } else {
        (count, SizeUnit::B)
    }
}

impl SizeUnit {
    /// The suffix printed after a size.
    pub fn suffix(&self) -> (r: &'static str)
        ensures
            *self == SizeUnit::B ==> r@ == "B"@,
            *self == SizeUnit::KB ==> r@ == "KB"@,
            *self == SizeUnit::MB ==> r@ == "MB"@,
            *self == SizeUnit::GB ==> r@ == "GB"@,
    {
        match self {
            SizeUnit::B => "B",
            SizeUnit::KB => "KB",
            SizeUnit::MB => "MB",
            SizeUnit::GB => "GB",
        }
    }
}

} // verus!
