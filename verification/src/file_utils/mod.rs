//! Line bookkeeping for one changed file.

use crate::git_diff::DiffHunkHeader;
use std::ops::Range;
use vstd::prelude::*;

pub mod file_filter;
pub mod paths;

verus! {

/// Decides what counts as a changed file, judged by the lines that the diff touches.
#[derive(PartialEq, Eq, Structural, Clone, Copy, Debug)]
pub enum LinesChangedOnly {
    /// Every file is kept, whatever lines the diff touches.
    Off,
    /// Only files with lines in the diff are kept, deletions included.
    ///
    /// Files without any line change (a rename with unmodified contents, a
    /// binary file) are left out.
    Diff,
    /// Only files with added lines are kept.
    On,
}

impl Default for LinesChangedOnly {
    fn default() -> (mode: Self)
        ensures
            mode == LinesChangedOnly::Off,
    {
        LinesChangedOnly::Off
    }
}

impl LinesChangedOnly {
    /// What [`Self::is_change_valid`] answers.
    pub open spec fn accepts(self, added_lines: bool, diff_hunks: bool) -> bool {
        match self {
            LinesChangedOnly::Off => true,
            LinesChangedOnly::Diff => diff_hunks,
            LinesChangedOnly::On => added_lines,
        }
    }

    /// Whether a file with (`added_lines`) or without added lines, and with
    /// (`diff_hunks`) or without hunks, is kept under this mode.
    pub fn is_change_valid(&self, added_lines: bool, diff_hunks: bool) -> (valid: bool)
        ensures
            valid == self.accepts(added_lines, diff_hunks),
    {
        match self {
            LinesChangedOnly::Off => true,
            LinesChangedOnly::Diff => diff_hunks,
            LinesChangedOnly::On => added_lines,
        }
    }
}

/// The largest line number that a half-open range of `u32` bounds can cover.
pub open spec fn line_limit() -> int {
    0xFFFF_FFFF
}

/// Every line number of `lines` can be covered by a half-open `u32` range.
pub open spec fn lines_in_reach(lines: Seq<u32>) -> bool {
    forall|i: int| 0 <= i < lines.len() ==> lines[i] < line_limit()
}

/// The maximal runs of consecutive numbers of `lines`, in the order of `lines`,
/// each as the half-open range from its first number to one past its last.
///
/// A number continues the run before it exactly when it is one more than the
/// number before it.
pub open spec fn consolidated(lines: Seq<u32>) -> Seq<Range<u32>>
    decreases lines.len(),
{
    if lines.len() == 0 {
        Seq::empty()
    } else {
        let last = lines.last();
        let single = Range { start: last, end: (last + 1) as u32 };
        if lines.len() == 1 {
            seq![single]
        } else {
            let before = consolidated(lines.drop_last());
            if last == lines[lines.len() - 2] + 1 {
                before.drop_last().push(Range { start: before.last().start, end: (last + 1) as u32 })
            } else {
                before.push(single)
            }
        }
    }
}

/// The numbers that `ranges` cover, range after range.
pub open spec fn expanded(ranges: Seq<Range<u32>>) -> Seq<u32>
    decreases ranges.len(),
{
    if ranges.len() == 0 {
        Seq::empty()
    } else {
        expanded(ranges.drop_last()) + Seq::new(
            (ranges.last().end - ranges.last().start) as nat,
            |k: int| (ranges.last().start + k) as u32,
        )
    }
}

/// `line` lies in the half-open `range`.
pub open spec fn range_holds(range: Range<u32>, line: int) -> bool {
    range.start <= line < range.end
}

/// `lines` is strictly increasing.
pub open spec fn strictly_increasing(lines: Seq<u32>) -> bool {
    forall|i: int, j: int| 0 <= i < j < lines.len() ==> lines[i] < lines[j]
}

/// No range of `ranges` is empty.
pub open spec fn ranges_nonempty(ranges: Seq<Range<u32>>) -> bool {
    forall|i: int| 0 <= i < ranges.len() ==> (#[trigger] ranges[i]).start < ranges[i].end
}

/// No range of `ranges` ends where the next one starts: none can be merged
/// with its neighbour.
pub open spec fn ranges_unmergeable(ranges: Seq<Range<u32>>) -> bool {
    forall|i: int| 0 <= i < ranges.len() - 1 ==> (#[trigger] ranges[i]).end != ranges[i + 1].start
}

/// Each range of `ranges` ends below the start of every later one: the ranges
/// are sorted and pairwise disjoint.
pub open spec fn ranges_ascending(ranges: Seq<Range<u32>>) -> bool {
    forall|i: int, j: int|
        0 <= i < j < ranges.len() ==> (#[trigger] ranges[i]).end <= (#[trigger] ranges[j]).start
}

proof fn lemma_consolidated_shape(lines: Seq<u32>)
    requires
        lines_in_reach(lines),
    ensures
        lines.len() == 0 ==> consolidated(lines).len() == 0,
        lines.len() > 0 ==> consolidated(lines).len() > 0 && consolidated(lines).last().end
            == lines.last() + 1 && consolidated(lines).last().start <= lines.last(),
        ranges_nonempty(consolidated(lines)),
        ranges_unmergeable(consolidated(lines)),
        expanded(consolidated(lines)) == lines,
    decreases lines.len(),
{
    let ranges = consolidated(lines);
    if lines.len() == 1 {
        let only = ranges[0];
        let run = Seq::new((only.end - only.start) as nat, |k: int| (only.start + k) as u32);
        assert(expanded(ranges) == expanded(ranges.drop_last()) + run);
    } else if lines.len() > 1 {
        let shorter = lines.drop_last();
        lemma_consolidated_shape(shorter);
        let before = consolidated(shorter);
        let last = lines.last();
        if last == lines[lines.len() - 2] + 1 {
            // The last number goes on with the last run.
            assert(ranges.drop_last() == before.drop_last());
            assert(expanded(ranges) == expanded(before).push(last));
        } else {
            // The last number starts a run of its own.
            assert(ranges.drop_last() == before);
        }
    }
}

/// Consolidation loses nothing and invents nothing: the ranges of
/// `consolidated(lines)`, expanded one after the other, give back `lines`.
pub proof fn lemma_consolidation_reconstructs(lines: Seq<u32>)
    requires
        lines_in_reach(lines),
    ensures
        expanded(consolidated(lines)) == lines,
{
    lemma_consolidated_shape(lines);
}

/// Each range of a consolidation is a whole run: none is empty, and none
/// ends where the next one starts.
pub proof fn lemma_consolidation_is_maximal(lines: Seq<u32>)
    requires
        lines_in_reach(lines),
    ensures
        ranges_nonempty(consolidated(lines)),
        ranges_unmergeable(consolidated(lines)),
{
    lemma_consolidated_shape(lines);
}

/// Each range of `ranges` ends at or below the start of the next one.
spec fn ranges_stepwise(ranges: Seq<Range<u32>>) -> bool {
    forall|i: int| 0 <= i < ranges.len() - 1 ==> (#[trigger] ranges[i]).end <= ranges[i + 1].start
}

proof fn lemma_stepwise_reaches(ranges: Seq<Range<u32>>, i: int, j: int)
    requires
        ranges_nonempty(ranges),
        ranges_stepwise(ranges),
        0 <= i < j < ranges.len(),
    ensures
        ranges[i].end <= ranges[j].start,
    decreases j - i,
{
    if i + 1 < j {
        lemma_stepwise_reaches(ranges, i + 1, j);
    }
}

proof fn lemma_consolidated_stepwise(lines: Seq<u32>)
    requires
        lines_in_reach(lines),
        strictly_increasing(lines),
    ensures
        ranges_stepwise(consolidated(lines)),
    decreases lines.len(),
{
    if lines.len() >= 2 {
        let shorter = lines.drop_last();
        lemma_consolidated_stepwise(shorter);
        lemma_consolidated_shape(shorter);
    }
}

/// The consolidation of strictly increasing line numbers is sorted and its
/// ranges are pairwise disjoint.
pub proof fn lemma_consolidation_is_sorted(lines: Seq<u32>)
    requires
        lines_in_reach(lines),
        strictly_increasing(lines),
    ensures
        ranges_ascending(consolidated(lines)),
{
    let ranges = consolidated(lines);
    lemma_consolidated_shape(lines);
    lemma_consolidated_stepwise(lines);
    assert forall|i: int, j: int| 0 <= i < j < ranges.len() implies (#[trigger] ranges[i]).end
        <= (#[trigger] ranges[j]).start by {
        lemma_stepwise_reaches(ranges, i, j);
    }
}

/// The changes to one file, by line number in the new version of the file.
#[derive(Debug, Clone)]
pub struct FileDiffLines {
    /// The line numbers with additions.
    pub added_lines: Vec<u32>,
    /// The runs of consecutive numbers in [`Self::added_lines`].
    pub added_ranges: Vec<Range<u32>>,
    /// The ranges of lines that the diff's hunks span.
    pub diff_hunks: Vec<Range<u32>>,
}

impl Default for FileDiffLines {
    fn default() -> (empty: Self)
        ensures
            empty.added_lines@ == Seq::<u32>::empty(),
            empty.added_ranges@ == Seq::<Range<u32>>::empty(),
            empty.diff_hunks@ == Seq::<Range<u32>>::empty(),
            empty.well_formed(),
    {
        FileDiffLines { added_lines: Vec::new(), added_ranges: Vec::new(), diff_hunks: Vec::new() }
    }
}

/// Copies a list of ranges.
pub fn copy_ranges(ranges: &Vec<Range<u32>>) -> (out: Vec<Range<u32>>)
    ensures
        out@ == ranges@,
{
    let mut out: Vec<Range<u32>> = Vec::new();
    let mut i: usize = 0;
    while i < ranges.len()
        invariant
            i <= ranges.len(),
            out@ == ranges@.take(i as int),
        decreases ranges.len() - i,
    {
        out.push(Range { start: ranges[i].start, end: ranges[i].end });
        i += 1;
    }
    out
}

impl FileDiffLines {
    /// The added ranges are the consolidation of the added lines.
    pub open spec fn well_formed(&self) -> bool {
        &&& lines_in_reach(self.added_lines@)
        &&& self.added_ranges@ == consolidated(self.added_lines@)
    }

    /// The span that [`Self::is_hunk_in_diff`] looks for: the old lines of the
    /// hunk, or the one line at its new start where the hunk only adds.
    pub open spec fn hunk_span(hunk: DiffHunkHeader) -> (int, int) {
        if hunk.old_lines > 0 {
            (hunk.old_start as int, hunk.old_start + hunk.old_lines)
        } else {
            (hunk.new_start as int, hunk.new_start + 1)
        }
    }

    /// Some range of [`Self::diff_hunks`] holds every line from `start` up to,
    /// not including, `end`.
    pub open spec fn spans(&self, start: int, end: int) -> bool {
        exists|i: int|
            0 <= i < self.diff_hunks@.len() && range_holds(self.diff_hunks@[i], start)
                && range_holds(#[trigger] self.diff_hunks@[i], end - 1)
    }

    /// Some range of [`Self::diff_hunks`] holds `line`.
    pub open spec fn touches(&self, line: int) -> bool {
        exists|i: int|
            0 <= i < self.diff_hunks@.len() && range_holds(#[trigger] self.diff_hunks@[i], line)
    }

    /// A copy of `self`.
    pub fn duplicate(&self) -> (copy: Self)
        ensures
            copy.added_lines@ == self.added_lines@,
            copy.added_ranges@ == self.added_ranges@,
            copy.diff_hunks@ == self.diff_hunks@,
    {
        let mut added_lines: Vec<u32> = Vec::new();
        let mut i: usize = 0;
        while i < self.added_lines.len()
            invariant
                i <= self.added_lines.len(),
                added_lines@ == self.added_lines@.take(i as int),
            decreases self.added_lines.len() - i,
        {
            added_lines.push(self.added_lines[i]);
            i += 1;
        }
        FileDiffLines {
            added_lines,
            added_ranges: copy_ranges(&self.added_ranges),
            diff_hunks: copy_ranges(&self.diff_hunks),
        }
    }

    /// Builds the record of a file from its added lines and its hunks' ranges.
    pub fn with_info(added_lines: Vec<u32>, diff_chunks: Vec<Range<u32>>) -> (info: Self)
        requires
            lines_in_reach(added_lines@),
        ensures
            info.added_lines@ == added_lines@,
            info.diff_hunks@ == diff_chunks@,
            info.added_ranges@ == consolidated(added_lines@),
            info.well_formed(),
    {
        let added_ranges = Self::consolidate_numbers_to_ranges(&added_lines);
        FileDiffLines { added_lines, added_ranges, diff_hunks: diff_chunks }
    }

    /// Groups line numbers into the ranges of their runs of consecutive numbers.
    pub fn consolidate_numbers_to_ranges(lines: &Vec<u32>) -> (ranges: Vec<Range<u32>>)
        requires
            lines_in_reach(lines@),
        ensures
            ranges@ == consolidated(lines@),
    {
        let mut ranges: Vec<Range<u32>> = Vec::new();
        if lines.len() == 0 {
            return ranges;
        }
        let mut range_start: u32 = lines[0];
        let mut i: usize = 1;
        while i < lines.len()
            invariant
                1 <= i <= lines.len(),
                lines_in_reach(lines@),
                consolidated(lines@.take(i as int)) == ranges@.push(
                    Range { start: range_start, end: (lines@[i - 1] + 1) as u32 },
                ),
            decreases lines.len() - i,
        {
            let prev: u32 = lines[i - 1];
            let number: u32 = lines[i];
            proof {
                let upto = lines@.take(i + 1);
                assert(upto.drop_last() == lines@.take(i as int));
            }
            if number != prev + 1 {
                ranges.push(Range { start: range_start, end: prev + 1 });
                range_start = number;
            }
            i += 1;
        }
        assert(lines@.take(lines.len() as int) == lines@);
        ranges.push(Range { start: range_start, end: lines[lines.len() - 1] + 1 });
        ranges
    }

    /// The ranges that matter under `lines_changed_only`: the hunks under
    /// `Diff`, the added ranges under `On`, none under `Off`.
    pub fn get_ranges(&self, lines_changed_only: &LinesChangedOnly) -> (ranges: Option<
        Vec<Range<u32>>,
    >)
        ensures
            *lines_changed_only == LinesChangedOnly::Off ==> ranges is None,
            *lines_changed_only == LinesChangedOnly::Diff ==> ranges is Some && ranges->0@
                == self.diff_hunks@,
            *lines_changed_only == LinesChangedOnly::On ==> ranges is Some && ranges->0@
                == self.added_ranges@,
    {
        match lines_changed_only {
            LinesChangedOnly::Diff => Some(copy_ranges(&self.diff_hunks)),
            LinesChangedOnly::On => Some(copy_ranges(&self.added_ranges)),
            LinesChangedOnly::Off => None,
        }
    }

    /// Looks for one range of [`Self::diff_hunks`] that holds the whole span of
    /// `hunk`, and returns that span as `(start, end)`, `end` not included.
    pub fn is_hunk_in_diff(&self, hunk: &DiffHunkHeader) -> (span: Option<(u32, u32)>)
        ensures
            span is Some <==> self.spans(Self::hunk_span(*hunk).0, Self::hunk_span(*hunk).1),
            span matches Some(found) ==> found.0 == Self::hunk_span(*hunk).0 && found.1
                == Self::hunk_span(*hunk).1,
    {
        let (start_line, length): (u32, u32) = if hunk.old_lines > 0 {
            (hunk.old_start, hunk.old_lines)
        } else {
            (hunk.new_start, 1)
        };
        let ghost end = start_line + length;
        // The last line of the span, where it is a line number at all.
        let inclusive_end: u32 = match start_line.checked_add(length - 1) {
            Some(line) => line,
            None => {
                return None;
            },
        };
        let mut i: usize = 0;
        while i < self.diff_hunks.len()
            invariant
                i <= self.diff_hunks.len(),
                inclusive_end == end - 1,
                Self::hunk_span(*hunk) == (start_line as int, end),
                forall|k: int|
                    0 <= k < i ==> !(range_holds(self.diff_hunks@[k], start_line as int)
                        && range_holds(#[trigger] self.diff_hunks@[k], end - 1)),
            decreases self.diff_hunks.len() - i,
        {
            let range = &self.diff_hunks[i];
            if range.start <= start_line && start_line < range.end && range.start <= inclusive_end
                && inclusive_end < range.end {
                return Some((start_line, inclusive_end + 1));
            }
            i += 1;
        }
        None
    }

    /// Whether some range of [`Self::diff_hunks`] holds `line`.
    pub fn is_line_in_diff(&self, line: &u32) -> (found: bool)
        ensures
            found == self.touches(*line as int),
    {
        let mut i: usize = 0;
        while i < self.diff_hunks.len()
            invariant
                i <= self.diff_hunks.len(),
                forall|k: int| 0 <= k < i ==> !range_holds(#[trigger] self.diff_hunks@[k], *line as int),
            decreases self.diff_hunks.len() - i,
        {
            let range = &self.diff_hunks[i];
            if range.start <= *line && *line < range.end {
                return true;
            }
            i += 1;
        }
        false
    }
}

} // verus!
