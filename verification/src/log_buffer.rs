//! In-memory log sink for the terminal view. Writing log lines to stderr would
//! corrupt the display, so log lines land here instead, for display in a
//! popup.

use std::collections::VecDeque;

use vstd::prelude::*;

use crate::text::chars;
use crate::text::chars::text_of_bytes;
use crate::text::lines;
use crate::text::lines::lines;

verus! {

/// Number of log lines kept; older lines are dropped once exceeded.
pub const CAPACITY: usize = 500;

/// A bounded ring buffer of log lines. Where several parts of a program write to
/// one or show it, the program keeps it behind a lock that they share.
#[derive(Debug)]
pub struct LogBuffer {
    lines: VecDeque<String>,
}

/// The newest of some lines, as many as are kept.
pub open spec fn newest(all: Seq<Seq<char>>) -> Seq<Seq<char>> {
    if all.len() > CAPACITY {
        all.skip(all.len() - CAPACITY)
    } else {
        all
    }
}

impl View for LogBuffer {
    type V = Seq<Seq<char>>;

    /// The lines, oldest first.
    closed spec fn view(&self) -> Seq<Seq<char>> {
        chars::texts(self.lines@)
    }
}

impl Default for LogBuffer {
    fn default() -> (buffer: Self)
        ensures
            buffer@ == Seq::<Seq<char>>::empty(),
    {
        let buffer = LogBuffer { lines: VecDeque::new() };
        assert(buffer@ =~= Seq::<Seq<char>>::empty());
        buffer
    }
}

impl LogBuffer {
    /// Whether no more lines are held than are kept.
    pub open spec fn well_formed(&self) -> bool {
        self@.len() <= CAPACITY
    }

    /// A snapshot of the currently buffered log lines, oldest first.
    pub fn lines(&self) -> (lines: Vec<String>)
        ensures
            chars::texts(lines@) == self@,
    {
        let mut lines: Vec<String> = Vec::new();
        let mut i: usize = 0;
        while i < self.lines.len()
            invariant
                i <= self.lines@.len(),
                lines@.len() == i,
                forall|k: int| 0 <= k < i ==> (#[trigger] lines@[k])@ == self.lines@[k]@,
            decreases self.lines@.len() - i,
        {
            lines.push(self.lines[i].clone());
            i = i + 1;
        }
        assert(chars::texts(lines@) =~= self@);
        lines
    }

    fn push(&mut self, line: String)
        requires
            old(self).well_formed(),
        ensures
            final(self).well_formed(),
            final(self)@ == newest(old(self)@.push(line@)),
    {
        let ghost before = self@;
        assert(before.len() == self.lines@.len());
        if self.lines.len() >= CAPACITY {
            let _ = self.lines.pop_front();
            assert(self@ =~= before.skip(1));
        }
        self.lines.push_back(line);
        assert(self@ =~= newest(before.push(line@)));
    }

    /// Appends what was logged, line by line. How many bytes were taken: all
    /// of them.
    pub fn write(&mut self, buf: &[u8]) -> (written: usize)
        requires
            old(self).well_formed(),
        ensures
            final(self).well_formed(),
            final(self)@ == newest(old(self)@ + lines::lines_of(chars::lossy_text(buf@))),
            written == buf@.len(),
    {
        let text = text_of_bytes(buf);
        let found = lines(text.as_str());
        let ghost before = self@;
        let ghost added = chars::texts(found@);
        let mut i: usize = 0;
        assert(before + added.take(0) =~= before);
        while i < found.len()
            invariant
                self.well_formed(),
                added == chars::texts(found@),
                i <= found@.len(),
                self@ == newest(before + added.take(i as int)),
            decreases found@.len() - i,
        {
            assert(added[i as int] == found@[i as int]@);
            proof {
                let all = before + added.take(i as int);
                lemma_newest_push(all, added[i as int]);
                assert(all.push(added[i as int]) =~= before + added.take(i + 1));
            }
            self.push(found[i].clone());
            i = i + 1;
        }
        assert(added.take(added.len() as int) =~= added);
        buf.len()
    }
}

proof fn lemma_newest_push(all: Seq<Seq<char>>, line: Seq<char>)
    ensures
        newest(newest(all).push(line)) == newest(all.push(line)),
{
    assert(newest(newest(all).push(line)) =~= newest(all.push(line)));
}

/// What is logged in two pieces at the end of a line is kept as what is logged
/// at once.
pub proof fn writing_goes_on(before: Seq<Seq<char>>, first: Seq<Seq<char>>, second: Seq<Seq<char>>)
    ensures
        newest(newest(before + first) + second) == newest(before + (first + second)),
{
    assert(newest(newest(before + first) + second) =~= newest(before + (first + second)));
}

/// The lines that pieces of log hold, one piece after the other.
pub open spec fn all_lines(pieces: Seq<Seq<u8>>) -> Seq<Seq<char>>
    decreases pieces.len(),
{
    if pieces.len() == 0 {
        Seq::empty()
    } else {
        all_lines(pieces.drop_last()) + lines::lines_of(chars::lossy_text(pieces.last()))
    }
}

/// The lines that are kept after pieces of log were written.
pub open spec fn after_writes(before: Seq<Seq<char>>, pieces: Seq<Seq<u8>>) -> Seq<Seq<char>>
    decreases pieces.len(),
{
    if pieces.len() == 0 {
        before
    } else {
        newest(
            after_writes(before, pieces.drop_last()) + lines::lines_of(
                chars::lossy_text(pieces.last()),
            ),
        )
    }
}

/// After any number of writes, a buffer that was empty holds the last of all
/// the lines that were written, oldest first: as many as are kept, or all of
/// them where they are fewer.
pub proof fn the_last_lines_are_kept(pieces: Seq<Seq<u8>>)
    ensures
        after_writes(Seq::empty(), pieces) == newest(all_lines(pieces)),
        after_writes(Seq::empty(), pieces).len() <= CAPACITY,
    decreases pieces.len(),
{
    let none = Seq::<Seq<char>>::empty();
    if pieces.len() > 0 {
        let before = pieces.drop_last();
        let added = lines::lines_of(chars::lossy_text(pieces.last()));
        the_last_lines_are_kept(before);
        writing_goes_on(none, all_lines(before), added);
        assert(none + all_lines(before) =~= all_lines(before));
        assert(none + (all_lines(before) + added) =~= all_lines(before) + added);
    } else {
        assert(all_lines(pieces) =~= none);
    }
}

/// The newest lines end as all lines do.
pub proof fn newest_is_a_suffix(all: Seq<Seq<char>>, index: int)
    requires
        0 <= index < newest(all).len(),
    ensures
        newest(all).len() <= CAPACITY,
        newest(all)[newest(all).len() - 1 - index] == all[all.len() - 1 - index],
{
}

/// The line logged last is always kept, whatever was logged before, and as long
/// as there is room nothing is dropped.
pub proof fn the_last_line_is_kept(before: Seq<Seq<char>>, line: Seq<char>)
    ensures
        newest(before.push(line)).last() == line,
        before.len() < 500 ==> newest(before.push(line)) == before.push(line),
        before.len() >= 500 ==> newest(before.push(line)).len() == 500,
{
}

} // verus!
