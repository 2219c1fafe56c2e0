use vstd::prelude::*;

use crate::format::{
    byte_field, field_width, offset_prefix, push_byte_field, push_offset_prefix, DisplayMode,
};

verus! {

/// How lines are drawn: the display mode and the number of bytes per row.
#[derive(Debug, Clone, Copy, PartialEq, Eq, Structural)]
pub struct RenderConfig {
    pub mode: DisplayMode,
    pub row_width: usize,
}

/// `n` spaces.
pub open spec fn spaces(n: nat) -> Seq<char> {
    Seq::new(n, |i: int| ' ')
}

/// Column `i` of the numeric grid: a separating space before every eighth
/// column, then the byte's field, or blanks of the same width past the end of
/// the window.
pub open spec fn grid_cell(window: Seq<u8>, mode: DisplayMode, i: int) -> Seq<char> {
    let sep: Seq<char> = if i % 8 == 0 { seq![' '] } else { seq![] };
    let body = if i < window.len() { byte_field(mode, window[i]) } else { spaces(field_width(mode)) };
    sep + body
}

/// The first `n` columns of the numeric grid.
pub open spec fn numeric_grid(window: Seq<u8>, mode: DisplayMode, n: nat) -> Seq<char>
    decreases n,
{
    if n == 0 {
        seq![]
    } else {
        numeric_grid(window, mode, (n - 1) as nat) + grid_cell(window, mode, n - 1)
    }
}

/// A byte as shown in the text column: printable ASCII as itself, anything
/// else as a dot.
pub open spec fn ascii_char(b: u8) -> char {
    if 32 <= b && b < 127 {
        b as char
    } else {
        '.'
    }
}

/// The text column: one character for each byte of the window.
pub open spec fn ascii_column(window: Seq<u8>) -> Seq<char> {
    window.map_values(|b: u8| ascii_char(b))
}

/// One complete output line: offset column, numeric grid over the whole row
/// width, a space, the text column, and a newline.
pub open spec fn line(window: Seq<u8>, config: RenderConfig, offset: u64) -> Seq<char> {
    offset_prefix(config.mode, offset) + numeric_grid(window, config.mode, config.row_width as nat)
        + seq![' '] + ascii_column(window) + seq!['\n']
}

/// The numeric grid always spans the whole row: every column takes the
/// mode's field width whether or not the window has a byte for it, plus one
/// separating space for each group of eight columns.
pub proof fn lemma_grid_width(window: Seq<u8>, mode: DisplayMode, n: nat)
    ensures
        numeric_grid(window, mode, n).len() == n * field_width(mode) + (n + 7) / 8,
    decreases n,
{
    if n > 0 {
        lemma_grid_width(window, mode, (n - 1) as nat);
        let i = n - 1;
        if i < window.len() {
            crate::format::lemma_byte_field_width(mode, window[i]);
        }
        let fw = field_width(mode);
        assert((n - 1) * fw + fw == n * fw) by (nonlinear_arith);
    }
}

/// The width of the numeric grid does not depend on how many bytes the
/// window holds: a short final window lines up with the full ones.
pub proof fn lemma_grid_width_same(a: Seq<u8>, b: Seq<u8>, mode: DisplayMode, n: nat)
    ensures
        numeric_grid(a, mode, n).len() == numeric_grid(b, mode, n).len(),
{
    lemma_grid_width(a, mode, n);
    lemma_grid_width(b, mode, n);
}

/// A line is made of the offset column, a numeric grid of fixed width, a
/// space, a text column exactly as long as the window, and a newline; the
/// text column shows each byte in order.
pub proof fn lemma_line_layout(window: Seq<u8>, config: RenderConfig, offset: u64)
    ensures
        line(window, config, offset) == offset_prefix(config.mode, offset) + numeric_grid(
            window,
            config.mode,
            config.row_width as nat,
        ) + seq![' '] + ascii_column(window) + seq!['\n'],
        numeric_grid(window, config.mode, config.row_width as nat).len() == config.row_width
            * field_width(config.mode) + (config.row_width + 7) / 8,
        ascii_column(window).len() == window.len(),
        forall|i: int| 0 <= i < window.len() ==> #[trigger] ascii_column(window)[i] == ascii_char(window[i]),
{
    lemma_grid_width(window, config.mode, config.row_width as nat);
}

/// Rendering is a function of the window, the configuration and the offset:
/// equal inputs give equal lines.
pub proof fn lemma_line_deterministic(
    w1: Seq<u8>,
    w2: Seq<u8>,
    c1: RenderConfig,
    c2: RenderConfig,
    o1: u64,
    o2: u64,
)
    requires
        w1 == w2,
        c1 == c2,
        o1 == o2,
    ensures
        line(w1, c1, o1) == line(w2, c2, o2),
{
}

fn ascii_char_exec(b: u8) -> (c: char)
    ensures
        c == ascii_char(b),
{
    if 32 <= b && b < 127 {
        b as char
    } else {
        '.'
    }
}

/// Renders one line of the dump for a window of at most `row_width` bytes
/// that starts at `offset`.
pub fn render(window: &[u8], config: &RenderConfig, offset: u64) -> (r: String)
    requires
        window@.len() <= config.row_width,
    ensures
        r@ == line(window@, *config, offset),
{
    let mode = config.mode;
    let mut out = String::new();
    push_offset_prefix(&mut out, mode, offset);
    let ghost prefix = out@;
    assert(prefix =~= offset_prefix(mode, offset));

    let mut i: usize = 0;
    while i < config.row_width
        invariant
            i <= config.row_width,
            mode == config.mode,
            prefix == offset_prefix(mode, offset),
            out@ == prefix + numeric_grid(window@, mode, i as nat),
        decreases config.row_width - i,
    {
        let ghost before = out@;
        if i % 8 == 0 {
            out.push(' ');
        }
        if i < window.len() {
            push_byte_field(&mut out, mode, window[i]);
        } else {
            let mut k: usize = 0;
            let ghost mid = out@;
            let width: usize = match mode {
                DisplayMode::HexLower | DisplayMode::HexUpper => 3,
                DisplayMode::Octal | DisplayMode::Decimal => 4,
            };
            while k < width
                invariant
                    k <= width,
                    out@ == mid + spaces(k as nat),
                decreases width - k,
            {
                out.push(' ');
                k = k + 1;
                assert(out@ =~= mid + spaces(k as nat));
            }
        }
        assert(out@ =~= before + grid_cell(window@, mode, i as int));
        i = i + 1;
        assert(out@ =~= prefix + numeric_grid(window@, mode, i as nat));
    }
    out.push(' ');

    let ghost grid_end = out@;
    let mut j: usize = 0;
    while j < window.len()
        invariant
            j <= window@.len(),
            out@ == grid_end + ascii_column(window@).take(j as int),
        decreases window@.len() - j,
    {
        out.push(ascii_char_exec(window[j]));
        j = j + 1;
        assert(out@ =~= grid_end + ascii_column(window@).take(j as int));
    }
    out.push('\n');
    assert(ascii_column(window@).take(j as int) =~= ascii_column(window@));
    assert(out@ =~= line(window@, *config, offset));
    out
}

} // verus!
