use vstd::prelude::*;

use crate::render::{line, render, RenderConfig};

verus! {

/// Where the dump of one file stands: the offset of the next window and how
/// many more bytes may be shown.
#[derive(Debug, Clone, Copy, PartialEq, Eq, Structural)]
pub struct DumpState {
    pub config: RenderConfig,
    pub offset: u64,
    pub remaining: u64,
}

/// The state after a window of `len` bytes has been shown.
pub open spec fn advance(s: DumpState, len: nat) -> DumpState {
    DumpState {
        config: s.config,
        offset: (s.offset + len) as u64,
        remaining: (s.remaining - len) as u64,
    }
}

/// The state after windows of the given lengths have been shown in turn.
pub open spec fn advance_all(s: DumpState, lens: Seq<nat>) -> DumpState
    decreases lens.len(),
{
    if lens.len() == 0 {
        s
    } else {
        advance(advance_all(s, lens.drop_last()), lens.last())
    }
}

/// The total of a sequence of lengths.
pub open spec fn total(lens: Seq<nat>) -> nat
    decreases lens.len(),
{
    if lens.len() == 0 {
        0
    } else {
        total(lens.drop_last()) + lens.last()
    }
}

/// The number of bytes to ask for next: a full row, or what is left of the
/// length budget if that is less.
pub open spec fn next_read_len(s: DumpState) -> nat {
    if s.remaining < s.config.row_width {
        s.remaining as nat
    } else {
        s.config.row_width as nat
    }
}

impl DumpState {
    /// The state at the start of a file: the dump begins at offset `skip` and
    /// shows at most `length` bytes.
    pub fn new(config: RenderConfig, skip: u64, length: u64) -> (r: DumpState)
        ensures
            r.config == config,
            r.offset == skip,
            r.remaining == length,
    {
        DumpState { config, offset: skip, remaining: length }
    }

    /// How many bytes the next read should ask for; zero once the length
    /// budget is spent.
    pub fn read_len(&self) -> (r: usize)
        ensures
            r == next_read_len(*self),
    {
        if self.remaining < self.config.row_width as u64 {
            self.remaining as usize
        } else {
            self.config.row_width
        }
    }

    /// Whether a window of `len` bytes can be shown next: it is no longer
    /// than the next read asks for, and its end offset fits in 64 bits.
    pub fn accepts(&self, len: usize) -> (r: bool)
        ensures
            r == (len <= next_read_len(*self) && self.offset + len <= u64::MAX),
    {
        len <= self.read_len() && len as u64 <= u64::MAX - self.offset
    }

    /// Renders the window that was just read at the current offset, then
    /// moves the offset on by the window's actual length.
    pub fn feed(&mut self, window: &[u8]) -> (r: String)
        requires
            window@.len() <= next_read_len(*old(self)),
            old(self).offset + window@.len() <= u64::MAX,
        ensures
            r@ == line(window@, old(self).config, old(self).offset),
            *final(self) == advance(*old(self), window@.len()),
    {
        let r = render(window, &self.config, self.offset);
        self.offset = self.offset + window.len() as u64;
        self.remaining = self.remaining - window.len() as u64;
        r
    }
}

/// Each window is shown at the offset where the previous one started plus
/// the previous window's actual length, not the row width; after any run of
/// windows the offset has moved by exactly their total length.
pub proof fn lemma_offsets_follow_windows(s: DumpState, lens: Seq<nat>, len: nat)
    requires
        s.offset + total(lens) + len <= u64::MAX,
    ensures
        advance_all(s, lens).offset == s.offset + total(lens),
        advance_all(s, lens.push(len)).offset == advance_all(s, lens).offset + len,
        advance_all(s, lens).config == s.config,
    decreases lens.len(),
{
    if lens.len() > 0 {
        lemma_offsets_follow_windows(s, lens.drop_last(), lens.last());
        assert(lens.drop_last().push(lens.last()) =~= lens);
    }
    assert(lens.push(len).drop_last() =~= lens);
}

} // verus!
