use std::collections::VecDeque;
use vstd::prelude::*;
use vstd::string::StrSliceExecFns;
use vstd::string::StringExecFns;

verus! {

broadcast use vstd::std_specs::vecdeque::group_vec_dequeue_axioms;

/// The series `s`, newest first, widened to `u64`: the order a chart drawn
/// from right to left wants, so that the newest value sits at the right edge.
pub open spec fn newest_first<T: Copy>(s: Seq<T>, widen: spec_fn(T) -> u64) -> Seq<u64> {
    Seq::new(s.len(), |i: int| widen(s[s.len() - 1 - i]))
}

/// Fills `buf` with the entries of `src`, newest first.
pub fn with_spark_data_u32(src: &VecDeque<u32>, buf: &mut Vec<u64>)
    ensures
        final(buf)@ == newest_first(src@, |v: u32| v as u64),
        final(buf)@ == src@.map_values(|v: u32| v as u64).reverse(),
{
    buf.clear();
    let n = src.len();
    let mut i: usize = 0;
    while i < n
        invariant
            n == src@.len(),
            0 <= i <= n,
            buf@ == newest_first(src@, |v: u32| v as u64).take(i as int),
        decreases n - i,
    {
        buf.push(src[n - 1 - i] as u64);
        i = i + 1;
        assert(buf@ =~= newest_first(src@, |v: u32| v as u64).take(i as int));
    }
    assert(buf@ =~= newest_first(src@, |v: u32| v as u64));
    assert(buf@ =~= src@.map_values(|v: u32| v as u64).reverse());
}

/// Fills `buf` with the entries of `src`, newest first.
pub fn with_spark_data_u64(src: &VecDeque<u64>, buf: &mut Vec<u64>)
    ensures
        final(buf)@ == newest_first(src@, |v: u64| v),
        final(buf)@ == src@.reverse(),
{
    buf.clear();
    let n = src.len();
    let mut i: usize = 0;
    while i < n
        invariant
            n == src@.len(),
            0 <= i <= n,
            buf@ == newest_first(src@, |v: u64| v).take(i as int),
        decreases n - i,
    {
        buf.push(src[n - 1 - i]);
        i = i + 1;
        assert(buf@ =~= newest_first(src@, |v: u64| v).take(i as int));
    }
    assert(buf@ =~= newest_first(src@, |v: u64| v));
    assert(buf@ =~= src@.reverse());
}

/// The colour class of a piece of text.
#[derive(Debug, Clone, Copy, PartialEq, Eq, Structural)]
pub enum Tone {
    Green,
    Yellow,
    Red,
    /// Dimmed: labels, missing figures, a feature that is off.
    Muted,
    /// Red and emphasised: a condition that needs attention.
    Alert,
    White,
    Cyan,
    LightCyan,
    Magenta,
    Blue,
    /// White and emphasised.
    WhiteBold,
    /// Yellow and emphasised.
    YellowBold,
    /// Cyan and emphasised.
    CyanBold,
    /// The terminal's own colour: spacing between pieces.
    Plain,
}

/// Temperature colouring: red above 80 degrees, yellow above 60.
pub open spec fn temp_tone(temp: u32) -> Tone {
    if temp > 80 {
        Tone::Red
    } else if temp > 60 {
        Tone::Yellow
    } else {
        Tone::Green
    }
}

/// The colour of a temperature in degrees Celsius.
pub fn temp_color(temp: u32) -> (r: Tone)
    ensures
        r == temp_tone(temp),
{
    if temp > 80 {
        Tone::Red
    } else if temp > 60 {
        Tone::Yellow
    } else {
        Tone::Green
    }
}

/// Performance-state colouring: green for P0, yellow for P1 to P4, red
/// otherwise.
pub open spec fn pstate_tone(ps: Seq<char>) -> Tone {
    if ps == "P0"@ {
        Tone::Green
    } else if ps == "P1"@ || ps == "P2"@ || ps == "P3"@ || ps == "P4"@ {
        Tone::Yellow
    } else {
        Tone::Red
    }
}

/// The colour of a performance-state label.
pub fn pstate_color(ps: &str) -> (r: Tone)
    ensures
        r == pstate_tone(ps@),
{
    proof {
        reveal_strlit("P0");
        reveal_strlit("P1");
        reveal_strlit("P2");
        reveal_strlit("P3");
        reveal_strlit("P4");
    }
    if ps.unicode_len() != 2 || ps.get_char(0) != 'P' {
        return Tone::Red;
    }
    let d = ps.get_char(1);
    if d == '0' {
        assert(ps@ =~= "P0"@);
        Tone::Green
    } else if d == '1' || d == '2' || d == '3' || d == '4' {
        assert(ps@ =~= seq!['P', d]);
        if d == '1' {
            assert(ps@ =~= "P1"@);
        } else if d == '2' {
            assert(ps@ =~= "P2"@);
        } else if d == '3' {
            assert(ps@ =~= "P3"@);
        } else {
            assert(ps@ =~= "P4"@);
        }
        Tone::Yellow
    } else {
        assert(ps@ =~= seq!['P', d]);
        Tone::Red
    }
}

/// ECC mode colouring: green when on, dimmed when off.
pub open spec fn ecc_mode_tone(on: bool) -> Tone {
    if on {
        Tone::Green
    } else {
        Tone::Muted
    }
}

/// The colour of the ECC mode.
pub fn ecc_mode_color(on: bool) -> (r: Tone)
    ensures
        r == ecc_mode_tone(on),
{
    if on {
        Tone::Green
    } else {
        Tone::Muted
    }
}

/// Corrected ECC error colouring: green when there are none, yellow otherwise.
pub open spec fn corrected_errors_tone(n: u64) -> Tone {
    if n == 0 {
        Tone::Green
    } else {
        Tone::Yellow
    }
}

/// The colour of a count of corrected ECC errors.
pub fn corrected_errors_color(n: u64) -> (r: Tone)
    ensures
        r == corrected_errors_tone(n),
{
    if n == 0 {
        Tone::Green
    } else {
        Tone::Yellow
    }
}

/// Uncorrected ECC error colouring: an alert when there are any, green otherwise.
pub open spec fn uncorrected_errors_tone(n: u64) -> Tone {
    if n > 0 {
        Tone::Alert
    } else {
        Tone::Green
    }
}

/// The colour of a count of uncorrected ECC errors.
pub fn uncorrected_errors_color(n: u64) -> (r: Tone)
    ensures
        r == uncorrected_errors_tone(n),
{
    if n > 0 {
        Tone::Alert
    } else {
        Tone::Green
    }
}

/// Throttle colouring: green for the label "None", an alert for any reason.
pub open spec fn throttle_tone(label: Seq<char>) -> Tone {
    if label == "None"@ {
        Tone::Green
    } else {
        Tone::Alert
    }
}

/// The colour of a throttle-reasons label.
pub fn throttle_color(label: &str) -> (r: Tone)
    ensures
        r == throttle_tone(label@),
{
    proof {
        reveal_strlit("None");
    }
    if label.unicode_len() == 4 && label.get_char(0) == 'N' && label.get_char(1) == 'o' && label.get_char(2)
        == 'n' && label.get_char(3) == 'e' {
        assert(label@ =~= "None"@);
        Tone::Green
    } else {
        proof {
            if label@.len() == 4 {
                assert(label@[0] != 'N' || label@[1] != 'o' || label@[2] != 'n' || label@[3] != 'e');
            }
        }
        Tone::Alert
    }
}

/// `s` repeated `n` times.
pub open spec fn repeat(s: Seq<char>, n: nat) -> Seq<char>
    decreases n,
{
    if n == 0 {
        Seq::empty()
    } else {
        repeat(s, (n - 1) as nat) + s
    }
}

/// A usage bar `width` cells wide: a leading space, `filled` full cells (at
/// most `width`) and empty cells for the rest; nothing when `width` is 0.
pub open spec fn bar(filled: nat, width: nat) -> Seq<char> {
    if width == 0 {
        Seq::empty()
    } else {
        let f = if filled > width {
            width
        } else {
            filled
        };
        " "@ + repeat("\u{25ae}"@, f) + repeat("\u{25af}"@, (width - f) as nat)
    }
}

fn push_repeat(s: &mut String, piece: &str, n: usize)
    ensures
        final(s)@ == old(s)@ + repeat(piece@, n as nat),
{
    let mut i: usize = 0;
    while i < n
        invariant
            0 <= i <= n,
            s@ == old(s)@ + repeat(piece@, i as nat),
        decreases n - i,
    {
        s.append(piece);
        i = i + 1;
        assert(s@ =~= old(s)@ + repeat(piece@, i as nat));
    }
}

/// The bar for `filled` full cells out of `width`.
pub fn make_bar(filled: usize, width: usize) -> (r: String)
    ensures
        r@ == bar(filled as nat, width as nat),
{
    if width == 0 {
        return String::new();
    }
    let f = if filled > width {
        width
    } else {
        filled
    };
    let mut s = String::from_str(" ");
    push_repeat(&mut s, "\u{25ae}", f);
    push_repeat(&mut s, "\u{25af}", width - f);
    s
}

/// Narrowest column of the per-core CPU grid, in cells.
pub const MIN_CORE_COLUMN: u16 = 12;

/// How the per-core CPU bars are laid out.
#[derive(Debug, Clone, Copy, PartialEq, Eq, Structural)]
pub struct CoreGrid {
    /// Columns of bars.
    pub num_cols: usize,
    /// Cells per bar.
    pub bar_width: usize,
    /// Cores shown.
    pub visible: usize,
    /// Rows of bars.
    pub rows: usize,
}

/// The layout for `cores` bars in a `width` by `height` area: as many
/// columns of at least `MIN_CORE_COLUMN` cells as fit (at least one), one
/// cell between columns, 8 cells per column for the index and percentage,
/// and as many cores as the rows can hold, filling columns top to bottom.
pub open spec fn grid_for(width: u16, height: u16, cores: usize) -> CoreGrid {
    let cols: nat = if width / MIN_CORE_COLUMN >= 1 {
        (width / MIN_CORE_COLUMN) as nat
    } else {
        1
    };
    let usable: nat = if width >= cols - 1 {
        (width - (cols - 1)) as nat
    } else {
        0
    };
    let col_width: nat = usable / cols;
    let bar_width: nat = if col_width >= 8 {
        (col_width - 8) as nat
    } else {
        0
    };
    let capacity: nat = height as nat * cols;
    let visible: nat = if cores < capacity {
        cores as nat
    } else {
        capacity
    };
    let rows: nat = ((visible + cols - 1) as nat) / cols;
    CoreGrid {
        num_cols: cols as usize,
        bar_width: bar_width as usize,
        visible: visible as usize,
        rows: rows as usize,
    }
}

/// Lays out `cores` bars in a `width` by `height` area.
pub fn core_grid(width: u16, height: u16, cores: usize) -> (r: CoreGrid)
    ensures
        r == grid_for(width, height, cores),
        r.num_cols >= 1,
        r.rows * r.num_cols >= r.visible,
{
    let per = width / MIN_CORE_COLUMN;
    let cols: usize = if per >= 1 {
        per as usize
    } else {
        1
    };
    let gaps = (cols - 1) as u16;
    let usable: u16 = if width >= gaps {
        width - gaps
    } else {
        0
    };
    let col_width = (usable as usize) / cols;
    let bar_width = if col_width >= 8 {
        col_width - 8
    } else {
        0
    };
    assert(cols <= 0x1800);
    assert((height as usize) * cols <= 0xffff * 0x1800) by (nonlinear_arith)
        requires
            height <= 0xffff,
            cols <= 0x1800,
    ;
    let capacity = (height as usize) * cols;
    let visible = if cores < capacity {
        cores
    } else {
        capacity
    };
    let rows = (visible + cols - 1) / cols;
    assert(rows * cols >= visible) by (nonlinear_arith)
        requires
            rows == ((visible + cols - 1) as int) / (cols as int),
            cols >= 1,
    ;
    CoreGrid { num_cols: cols, bar_width, visible, rows }
}

/// The core shown at `row`, `col` of the grid, if any: cores fill each
/// column top to bottom before the next column starts.
pub fn core_slot(grid: &CoreGrid, row: usize, col: usize) -> (r: Option<usize>)
    ensures
        r == (if col * grid.rows + row < grid.visible {
            Some((col * grid.rows + row) as usize)
        } else {
            None
        }),
{
    match col.checked_mul(grid.rows) {
        Some(base) => match base.checked_add(row) {
            Some(idx) => if idx < grid.visible {
                Some(idx)
            } else {
                None
            },
            None => None,
        },
        None => {
            assert(col * grid.rows + row >= grid.visible) by (nonlinear_arith)
                requires
                    col * grid.rows > usize::MAX,
                    grid.visible <= usize::MAX,
                    row >= 0,
            ;
            None
        },
    }
}

/// Chart data is the whole series reversed, newest first: read back to
/// front it gives the readings in the order they arrived; every position
/// `i` holds the reading `i` places before the newest; and a new reading
/// goes in front of the data of the older ones.
pub proof fn law_spark_newest_first<T: Copy>(s: Seq<T>, widen: spec_fn(T) -> u64, v: T)
    ensures
        newest_first(s, widen) == s.map_values(widen).reverse(),
        newest_first(s, widen).reverse() == s.map_values(widen),
        forall|i: int| 0 <= i < s.len() ==> #[trigger] newest_first(s, widen)[i] == widen(s[s.len() - 1 - i]),
        newest_first(s.push(v), widen) == seq![widen(v)] + newest_first(s, widen),
{
    let d = newest_first(s, widen);
    let w = s.map_values(widen);
    assert(d =~= w.reverse());
    assert(d.reverse() =~= w);
    assert(newest_first(s.push(v), widen) =~= seq![widen(v)] + d);
}

} // verus!
