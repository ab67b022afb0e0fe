//! Laying out instructions into lines, going back to an earlier line when a
//! line does not fit.

use vstd::prelude::*;

use crate::printer::hir::{spec_implies_skip, Atomic, BreakId, BreakLevel, NamedBreakLevel, HIR};
use crate::printer::lir::LIR;
use crate::printer::line::{
    line_breaks_skip, line_width, lookup_or_empty, min_key_index, spec_finished_line,
    spec_next_br, spec_process, spec_start_line, with_stage_lir, FlushedLine, Line, LineBuffer,
    LineBufferV, LineV, ProcessOp, RewindableLine, find_min_key, lemma_min_key_index,
};
use crate::printer::config::PrintConfig;
use crate::printer::process::{spec_indent_level, FlushLine};
use crate::style::Style;
use crate::utils::assoc::{MapKey, insert_entry, key_index, lemma_key_index, lemma_lookup_insert, lookup, remove_entry};
use crate::utils::{WystCopyMap, WystMap};

verus! {

/// A break opportunity that was skipped, and the line it was skipped in.
#[derive(Clone, Copy, Debug, PartialEq, Eq, Hash)]
pub struct RewindState {
    /// The break level of the skipped break opportunity.
    pub named_level: NamedBreakLevel,
    /// The line that contains the skipped break opportunity.
    pub line: RewindableLine,
}

impl RewindState {
    pub fn id(self) -> (id: BreakId)
        ensures
            id == self.named_level.id,
    {
        self.named_level.id
    }

    pub fn level(self) -> (level: usize)
        ensures
            level == self.named_level.level,
    {
        self.named_level.level
    }
}

/// The lines in which the break opportunities of one group were skipped.
#[derive(Clone, Debug, PartialEq, Eq, Hash)]
pub struct SkippedOpportunitiesForId {
    pub lines: WystCopyMap<usize, RewindableLine>,
}

/// What to do with an instruction, given the breaks taken so far.
#[derive(Clone, Copy, Debug, PartialEq, Eq, Hash)]
pub enum HandleOp<S> {
    /// Lay the instruction out.
    Process(HIR<S>),
    /// Skip the break opportunity of this level.
    Skip(NamedBreakLevel),
}

/// The view of the skipped breaks: levels, each mapped to the groups skipped
/// at that level and where they were skipped.
pub type SkippedV = Seq<(usize, Seq<(BreakId, RewindState)>)>;

/// The position of the entry with the least key among the entries whose
/// sequence is not empty (the first of equals); `None` where every sequence
/// is empty.
pub open spec fn min_nonempty_key_index<X>(s: Seq<(usize, Seq<X>)>) -> Option<int>
    decreases s.len(),
{
    if s.len() == 0 {
        None
    } else {
        let last_ok = s.last().1.len() > 0;
        match min_nonempty_key_index(s.drop_last()) {
            None => if last_ok {
                Some(s.len() - 1)
            } else {
                None
            },
            Some(i) => if last_ok && s.last().0 < s[i].0 {
                Some(s.len() - 1)
            } else {
                Some(i)
            },
        }
    }
}

/// `min_nonempty_key_index` finds a non-empty entry whose key is the least
/// key of all non-empty entries, and finds none only where all are empty.
pub proof fn lemma_min_nonempty_key_index<X>(s: Seq<(usize, Seq<X>)>)
    ensures
        min_nonempty_key_index(s) is None <==> forall|j: int| 0 <= j < s.len() ==> (#[trigger] s[j]).1.len() == 0,
        min_nonempty_key_index(s) matches Some(i) ==> 0 <= i < s.len() && s[i].1.len() > 0,
        min_nonempty_key_index(s) matches Some(i) ==> forall|j: int|
            0 <= j < s.len() && (#[trigger] s[j]).1.len() > 0 ==> s[i].0 <= s[j].0,
    decreases s.len(),
{
    if s.len() > 0 {
        let p = s.drop_last();
        lemma_min_nonempty_key_index(p);
        assert forall|j: int| 0 <= j < p.len() implies #[trigger] p[j] == s[j] by {}
        match min_nonempty_key_index(p) {
            Some(k) => {
                assert(p[k] == s[k]);
            },
            None => {},
        }
        if let Some(i) = min_nonempty_key_index(s) {
            assert forall|j: int| 0 <= j < s.len() && (#[trigger] s[j]).1.len() > 0 implies s[i].0 <= s[j].0 by {
                if j < p.len() {
                    assert(p[j] == s[j]);
                    match min_nonempty_key_index(p) {
                        Some(k) => {
                            assert(p[k] == s[k]);
                            assert(p[k].0 <= p[j].0);
                        },
                        None => {
                            assert(p[j].1.len() == 0);
                        },
                    }
                }
            }
        }
        if min_nonempty_key_index(s) is None {
            assert forall|j: int| 0 <= j < s.len() implies (#[trigger] s[j]).1.len() == 0 by {
                if j < p.len() {
                    assert(p[j] == s[j]);
                }
            }
        }
    }
}

/// Finds the entry with the least key among the non-empty inner maps.
pub fn find_min_nonempty_key<K: MapKey, V: Copy>(map: &WystMap<usize, WystCopyMap<K, V>>) -> (index: Option<usize>)
    ensures
        index matches Some(i) ==> min_nonempty_key_index(map@) == Some(i as int) && i < map@.len(),
        index is None ==> min_nonempty_key_index(map@) is None,
{
    let mut best: Option<usize> = None;
    let mut i: usize = 0;
    while i < map.len()
        invariant
            i <= map@.len(),
            best matches Some(b) ==> b < i,
            min_nonempty_key_index(map@.subrange(0, i as int)) == (match best {
                Some(b) => Some(b as int),
                None => None::<int>,
            }),
        decreases map@.len() - i,
    {
        let ghost prefix = map@.subrange(0, i + 1);
        assert(prefix.drop_last() =~= map@.subrange(0, i as int));
        let nonempty = map.value_at(i).len() > 0;
        if nonempty {
            match best {
                None => {
                    best = Some(i);
                },
                Some(b) => {
                    if map.key_at(i) < map.key_at(b) {
                        best = Some(i);
                    }
                },
            }
        }
        i = i + 1;
    }
    assert(map@.subrange(0, i as int) =~= map@);
    best
}

/// Takes the first break skipped at the lowest level that still holds a
/// skipped break. Nothing is taken where no skipped break is left.
pub open spec fn spec_take_next(m: SkippedV) -> (SkippedV, Option<RewindState>) {
    match min_nonempty_key_index(m) {
        None => (m, None),
        Some(i) => (m.update(i, (m[i].0, remove_entry(m[i].1, m[i].1[0].0))), Some(m[i].1[0].1)),
    }
}

/// Takes the skipped break `br`; `None` where it was not skipped.
pub open spec fn spec_take_break(m: SkippedV, br: NamedBreakLevel) -> Option<(SkippedV, RewindState)> {
    match key_index(m, br.level) {
        None => None,
        Some(i) => match lookup(m[i].1, br.id) {
            None => None,
            Some(r) => Some((m.update(i, (m[i].0, remove_entry(m[i].1, br.id))), r)),
        },
    }
}

/// Records the skipped break `r`, unless its group was already skipped at
/// that level.
pub open spec fn spec_skip_break(m: SkippedV, r: RewindState) -> SkippedV {
    let inner = lookup_or_empty(m, r.named_level.level);
    match lookup(inner, r.named_level.id) {
        Some(_) => m,
        None => insert_entry(m, r.named_level.level, insert_entry(inner, r.named_level.id, r)),
    }
}

/// The breaks skipped so far, by level and group.
#[derive(Clone, Debug, PartialEq, Eq, Hash)]
pub struct SkippedBreaks {
    pub map: WystMap<usize, WystCopyMap<BreakId, RewindState>>,
}

impl SkippedBreaks {
    pub fn empty() -> (breaks: SkippedBreaks)
        ensures
            breaks.map@ == Seq::<(usize, Seq<(BreakId, RewindState)>)>::empty(),
    {
        SkippedBreaks { map: WystMap::empty() }
    }

    /// Takes the next skipped break: used when a line overflows and skipped
    /// no break of its own.
    pub fn take_next(&mut self) -> (next: Option<RewindState>)
        ensures
            (final(self).map@, next) == spec_take_next(old(self).map@),
    {
        proof {
            lemma_min_nonempty_key_index(self.map@);
        }
        match find_min_nonempty_key(&self.map) {
            None => {
                assert(self.map@ =~= old(self).map@);
                None
            },
            Some(i) => {
                let mut inner = self.map.replace_value_at(i, WystCopyMap::empty());
                let id = inner.key_at(0);
                let state = inner.value_at(0);
                inner.delete(id);
                self.map.set_value_at(i, inner);
                Some(state)
            },
        }
    }

    /// Takes the skipped break `br`: used when a line overflows and skipped
    /// `br` itself.
    pub fn take_break(&mut self, br: NamedBreakLevel) -> (state: RewindState)
        requires
            spec_take_break(old(self).map@, br) is Some,
        ensures
            spec_take_break(old(self).map@, br) == Some((final(self).map@, state)),
    {
        proof {
            lemma_key_index(self.map@, br.level);
        }
        let i = self.map.find(br.level).unwrap();
        let mut inner = self.map.replace_value_at(i, WystCopyMap::empty());
        let state = inner.delete(br.id).unwrap();
        self.map.set_value_at(i, inner);
        state
    }

    /// Records a skipped break.
    pub fn skip(&mut self, rewind: RewindState)
        ensures
            final(self).map@ == spec_skip_break(old(self).map@, rewind),
    {
        proof {
            lemma_key_index(self.map@, rewind.named_level.level);
        }
        match self.map.find(rewind.level()) {
            Some(i) => {
                let mut inner = self.map.replace_value_at(i, WystCopyMap::empty());
                match inner.get(rewind.id()) {
                    // The entry was recorded for this very level and group, so
                    // it already covers this skip.
                    Some(_) => {
                        self.map.set_value_at(i, inner);
                        assert(self.map@ =~= old(self).map@);
                    },
                    None => {
                        inner.insert(rewind.id(), rewind);
                        self.map.set_value_at(i, inner);
                    },
                }
            },
            None => {
                let mut inner = WystCopyMap::empty();
                inner.insert(rewind.id(), rewind);
                self.map.insert(rewind.level(), inner);
            },
        }
    }
}

/// The view of the break decisions.
pub struct BreakDecisionsV {
    pub skipped: SkippedV,
    pub taken: Seq<(BreakId, usize)>,
}

/// What to do with `op`: a break opportunity of a group is skipped unless a
/// break of that group at its level or above was taken.
pub open spec fn spec_handle_op<S>(taken: Seq<(BreakId, usize)>, op: HIR<S>) -> HandleOp<S> {
    match op {
        HIR::BreakOpportunity(wbr) => match wbr.level {
            BreakLevel::Unconditional => HandleOp::Process(op),
            BreakLevel::Level(l) => match lookup(taken, l.id) {
                Some(t) => if t >= l.level {
                    HandleOp::Process(op)
                } else {
                    HandleOp::Skip(l)
                },
                None => HandleOp::Skip(l),
            },
        },
        _ => HandleOp::Process(op),
    }
}

/// Records that the break `level` is taken.
pub open spec fn spec_taken(taken: Seq<(BreakId, usize)>, level: NamedBreakLevel) -> Seq<(BreakId, usize)> {
    insert_entry(taken, level.id, level.level)
}

/// Picks the break to take after a line overflowed, given the break that
/// line names (if it skipped any); `None` where the named break was not
/// recorded as skipped.
pub open spec fn spec_rewind_for(d: BreakDecisionsV, skipped_br: Option<NamedBreakLevel>) -> Option<
    (BreakDecisionsV, Option<RewindState>),
> {
    match skipped_br {
        Some(s) => match spec_take_break(d.skipped, s) {
            None => None,
            Some((m, r)) => Some(
                (BreakDecisionsV { skipped: m, taken: spec_taken(d.taken, r.named_level) }, Some(r)),
            ),
        },
        None => {
            let (m, r) = spec_take_next(d.skipped);
            match r {
                None => Some((BreakDecisionsV { skipped: m, taken: d.taken }, None)),
                Some(r) => Some(
                    (
                        BreakDecisionsV { skipped: m, taken: spec_taken(d.taken, r.named_level) },
                        Some(r),
                    ),
                ),
            }
        },
    }
}

/// The breaks that were skipped, and for each group the highest level at
/// which its breaks are taken. When a line overflows, the skipped break with
/// the lowest level is taken, and layout goes back to the line that skipped
/// it.
#[derive(Clone, Debug, PartialEq, Eq, Hash)]
pub struct BreakDecisions {
    pub skipped: SkippedBreaks,
    pub taken: WystCopyMap<BreakId, usize>,
}

impl View for BreakDecisions {
    type V = BreakDecisionsV;

    open spec fn view(&self) -> BreakDecisionsV {
        BreakDecisionsV { skipped: self.skipped.map@, taken: self.taken@ }
    }
}

impl BreakDecisions {
    pub fn empty() -> (decisions: BreakDecisions)
        ensures
            decisions@.skipped == Seq::<(usize, Seq<(BreakId, RewindState)>)>::empty(),
            decisions@.taken == Seq::<(BreakId, usize)>::empty(),
    {
        BreakDecisions { skipped: SkippedBreaks::empty(), taken: WystCopyMap::empty() }
    }

    /// Records that the break `state` is taken.
    pub fn take_break(&mut self, state: NamedBreakLevel)
        ensures
            final(self)@.taken == spec_taken(old(self)@.taken, state),
            final(self)@.skipped == old(self)@.skipped,
    {
        self.taken.insert(state.id, state.level);
    }

    /// Takes a skipped break after a line overflowed: `skipped_br` if the
    /// line skipped a break, the next skipped break otherwise.
    pub fn rewind_for(&mut self, skipped_br: Option<NamedBreakLevel>) -> (next: Option<RewindState>)
        requires
            spec_rewind_for(old(self)@, skipped_br) is Some,
        ensures
            spec_rewind_for(old(self)@, skipped_br) == Some((final(self)@, next)),
    {
        match skipped_br {
            Some(skipped) => {
                let next = self.skipped.take_break(skipped);
                self.take_break(next.named_level);
                Some(next)
            },
            None => {
                let next = self.skipped.take_next();
                match next {
                    None => {},
                    Some(state) => {
                        self.take_break(state.named_level);
                    },
                }
                next
            },
        }
    }

    /// Decides whether `op` is laid out or skipped.
    pub fn handle_op<S: Style>(&self, op: HIR<S>) -> (handled: HandleOp<S>)
        ensures
            handled == spec_handle_op(self@.taken, op),
    {
        match op {
            HIR::BreakOpportunity(wbr) => match wbr.level {
                BreakLevel::Unconditional => HandleOp::Process(op),
                BreakLevel::Level(NamedBreakLevel { id, level }) => match self.taken.get(id) {
                    Some(taken_level) => {
                        if taken_level >= level {
                            HandleOp::Process(op)
                        } else {
                            HandleOp::Skip(NamedBreakLevel { id, level })
                        }
                    },
                    None => HandleOp::Skip(NamedBreakLevel { id, level }),
                },
            },
            _ => HandleOp::Process(op),
        }
    }

    /// Records a skipped break.
    pub fn skip(&mut self, rewind: RewindState)
        ensures
            final(self)@.skipped == spec_skip_break(old(self)@.skipped, rewind),
            final(self)@.taken == old(self)@.taken,
    {
        self.skipped.skip(rewind);
    }
}

/// The view of the lines laid out so far and of the line being laid out.
pub struct LinesBufferV<S> {
    pub decisions: BreakDecisionsV,
    pub lines: Seq<LineV<S>>,
    pub current: LineBufferV<S>,
    pub config: PrintConfig,
}

/// What one instruction does to the lines.
pub enum ProcessResultV<S> {
    /// The input has ended.
    EOF,
    /// Go on with the next instruction.
    Next,
    /// A line is finished.
    Success(LineV<S>),
    /// Lay out again from this line.
    Rewind(RewindableLine),
}

/// The lines with `current` as the line being laid out.
pub open spec fn with_current<S>(s: LinesBufferV<S>, current: LineBufferV<S>) -> LinesBufferV<S> {
    LinesBufferV { decisions: s.decisions, lines: s.lines, current, config: s.config }
}

/// Ends the current line before a line in stage `flush.next` that starts at
/// instruction `hir_offset`. A line that fits is finished; one that does not
/// takes a skipped break and asks to lay out again from the line that skipped
/// it, or is finished anyway where no break is left. `None` where the line
/// number or the width of the line would overflow, or where the break the
/// line names was not recorded as skipped.
pub open spec fn spec_lines_flush<S>(s: LinesBufferV<S>, flush: FlushLine<S>, hir_offset: usize) -> Option<
    (LinesBufferV<S>, ProcessResultV<S>),
> {
    let line = spec_finished_line(s.current, spec_indent_level(flush.next));
    if s.current.lineno.lineno >= usize::MAX || line_width(line, s.current.config) > usize::MAX {
        None
    } else {
        let fresh = spec_start_line::<S>(
            RewindableLine {
                lineno: (s.current.lineno.lineno + 1) as usize,
                hir_offset,
                pre_indent: spec_indent_level(s.current.stage),
            },
            s.config,
        );
        let lir = match flush.then_consume {
            Some(t) => seq![t],
            None => Seq::empty(),
        };
        let next = with_stage_lir(fresh, flush.next, lir);
        if line_width(line, s.current.config) <= s.current.config.page_width {
            Some((with_current(s, next), ProcessResultV::Success(line)))
        } else {
            match spec_rewind_for(s.decisions, spec_next_br(s.current.breaks)) {
                None => None,
                Some((d, r)) => match r {
                    // No skipped break is left to take: the line is kept as it
                    // is, and the next line goes on as after a line that fits.
                    None => Some(
                        (
                            LinesBufferV { decisions: d, lines: s.lines, current: next, config: s.config },
                            ProcessResultV::Success(line),
                        ),
                    ),
                    Some(r) => Some(
                        (
                            LinesBufferV { decisions: d, lines: s.lines, current: fresh, config: s.config },
                            ProcessResultV::Rewind(r.line),
                        ),
                    ),
                },
            }
        }
    }
}

/// What the instruction `op` at offset `hir_offset` does to the lines.
pub open spec fn spec_lines_process<S>(s: LinesBufferV<S>, hir_offset: usize, op: HIR<S>) -> Option<
    (LinesBufferV<S>, ProcessResultV<S>),
> {
    match spec_handle_op(s.decisions.taken, op) {
        HandleOp::Process(op) => match spec_process(s.current, op) {
            None => None,
            Some((current, result)) => {
                let s1 = with_current(s, current);
                match result {
                    ProcessOp::Flush(flush) => spec_lines_flush(s1, flush, hir_offset),
                    ProcessOp::Nothing => Some((s1, ProcessResultV::Next)),
                    ProcessOp::EOF => Some((s1, ProcessResultV::EOF)),
                }
            },
        },
        HandleOp::Skip(level) => Some(
            (
                LinesBufferV {
                    decisions: BreakDecisionsV {
                        skipped: spec_skip_break(
                            s.decisions.skipped,
                            RewindState { named_level: level, line: s.current.lineno },
                        ),
                        taken: s.decisions.taken,
                    },
                    lines: s.lines,
                    current: LineBufferV { breaks: line_breaks_skip(s.current.breaks, level), ..s.current },
                    config: s.config,
                },
                ProcessResultV::Next,
            ),
        ),
    }
}

/// The lines after going back to line `line`: it and the lines after it are
/// dropped, and it is laid out anew.
pub open spec fn spec_rewind<S>(s: LinesBufferV<S>, line: RewindableLine) -> LinesBufferV<S> {
    LinesBufferV {
        decisions: s.decisions,
        lines: if line.lineno <= s.lines.len() {
            s.lines.subrange(0, line.lineno as int)
        } else {
            s.lines
        },
        current: spec_start_line(line, s.config),
        config: s.config,
    }
}

/// The views of some lines.
pub open spec fn line_views<S>(lines: Seq<Line<S>>) -> Seq<LineV<S>> {
    lines.map_values(|l: Line<S>| l@)
}

/// A finished line, or the line to lay out again from.
#[derive(Clone, Debug, PartialEq, Eq, Hash)]
pub enum FlushResult<S> {
    Success(Line<S>),
    Rewind(RewindableLine),
}

/// What one instruction does to the lines.
#[derive(Clone, Debug, PartialEq, Eq, Hash)]
pub enum ProcessResult<S> {
    EOF,
    Next,
    Flush(FlushResult<S>),
}

/// The view of a result.
pub open spec fn process_result_view<S>(r: ProcessResult<S>) -> ProcessResultV<S> {
    match r {
        ProcessResult::EOF => ProcessResultV::EOF,
        ProcessResult::Next => ProcessResultV::Next,
        ProcessResult::Flush(FlushResult::Success(line)) => ProcessResultV::Success(line@),
        ProcessResult::Flush(FlushResult::Rewind(line)) => ProcessResultV::Rewind(line),
    }
}

/// The lines laid out so far, the line being laid out, and the break
/// decisions.
#[derive(Clone, Debug, PartialEq, Eq, Hash)]
pub struct LinesBuffer<S> {
    pub breaks: BreakDecisions,
    pub lines: Vec<Line<S>>,
    pub current_line: LineBuffer<S>,
    pub config: PrintConfig,
}

impl<S> View for LinesBuffer<S> {
    type V = LinesBufferV<S>;

    open spec fn view(&self) -> LinesBufferV<S> {
        LinesBufferV {
            decisions: self.breaks@,
            lines: line_views(self.lines@),
            current: self.current_line@,
            config: self.config,
        }
    }
}

/// The lines at the start.
pub open spec fn spec_lines_start<S>(config: PrintConfig) -> LinesBufferV<S> {
    LinesBufferV {
        decisions: BreakDecisionsV { skipped: Seq::empty(), taken: Seq::empty() },
        lines: Seq::empty(),
        current: spec_start_line(RewindableLine { lineno: 0, hir_offset: 0, pre_indent: 0 }, config),
        config,
    }
}

impl<S: Style> LinesBuffer<S> {
    pub fn new(config: PrintConfig) -> (buffer: LinesBuffer<S>)
        ensures
            buffer@ == spec_lines_start::<S>(config),
    {
        let buffer = LinesBuffer {
            breaks: BreakDecisions::empty(),
            lines: Vec::new(),
            current_line: LineBuffer::first(config),
            config,
        };
        assert(buffer@.lines =~= Seq::<LineV<S>>::empty());
        buffer
    }

    pub fn done(self) -> (lines: Lines<S>)
        ensures
            line_views(lines.lines@) == self@.lines,
    {
        Lines::new(self.lines)
    }

    /// Goes back to line `line`.
    pub fn rewind(&mut self, line: RewindableLine)
        ensures
            final(self)@ == spec_rewind(old(self)@, line),
    {
        self.lines.truncate(line.lineno);
        self.current_line = LineBuffer::start_line(line, self.config);
        assert(self@.lines =~= spec_rewind(old(self)@, line).lines);
    }

    /// Adds a finished line.
    pub fn push_line(&mut self, line: Line<S>)
        ensures
            final(self)@ == (LinesBufferV { lines: old(self)@.lines.push(line@), ..old(self)@ }),
    {
        self.lines.push(line);
        assert(self@.lines =~= old(self)@.lines.push(line@));
    }

    /// Processes the instruction `op` at offset `hir_offset`.
    pub fn process(&mut self, hir_offset: usize, op: HIR<S>) -> (result: ProcessResult<S>)
        requires
            spec_lines_process(old(self)@, hir_offset, op) is Some,
        ensures
            spec_lines_process(old(self)@, hir_offset, op) == Some(
                (final(self)@, process_result_view(result)),
            ),
    {
        match self.breaks.handle_op(op) {
            HandleOp::Process(op) => match self.current_line.process(op) {
                ProcessOp::Flush(flush) => ProcessResult::Flush(self.flush(flush, hir_offset)),
                ProcessOp::Nothing => ProcessResult::Next,
                ProcessOp::EOF => ProcessResult::EOF,
            },
            HandleOp::Skip(level) => {
                self.skip(level);
                ProcessResult::Next
            },
        }
    }

    fn flush(&mut self, flush: FlushLine<S>, hir_offset: usize) -> (result: FlushResult<S>)
        requires
            spec_lines_flush(old(self)@, flush, hir_offset) is Some,
        ensures
            spec_lines_flush(old(self)@, flush, hir_offset) == Some(
                (final(self)@, process_result_view(ProcessResult::Flush(result))),
            ),
    {
        let mut buffer = self.current_line.next_buf(hir_offset, self.config);
        std::mem::swap(&mut buffer, &mut self.current_line);
        match buffer.flush(flush) {
            FlushedLine::Flushed(line) => {
                self.continue_line(flush);
                FlushResult::Success(line)
            },
            FlushedLine::NoFit { try_skip, line } => {
                match self.breaks.rewind_for(try_skip) {
                    // No more breaks to take: keep the line anyway.
                    None => {
                        self.continue_line(flush);
                        FlushResult::Success(line)
                    },
                    Some(state) => FlushResult::Rewind(state.line),
                }
            },
        }
    }

    /// Starts the fresh current line with the text that the flush consumes,
    /// in the stage that follows the flush.
    fn continue_line(&mut self, flush: FlushLine<S>)
        requires
            old(self)@.current.lir.len() == 0,
        ensures
            final(self)@ == (LinesBufferV {
                current: with_stage_lir(
                    old(self)@.current,
                    flush.next,
                    match flush.then_consume {
                        Some(t) => seq![t],
                        None => Seq::empty(),
                    },
                ),
                ..old(self)@
            }),
    {
        if let Some(then_consume) = flush.then_consume {
            self.current_line.push(then_consume);
        }
        self.current_line.stage = flush.next;
        proof {
            let lir = match flush.then_consume {
                Some(t) => seq![t],
                None => Seq::<crate::printer::text::Text<S>>::empty(),
            };
            assert(self.current_line@.lir =~= lir);
        }
    }

    fn skip(&mut self, named_level: NamedBreakLevel)
        ensures
            final(self)@ == (LinesBufferV {
                decisions: BreakDecisionsV {
                    skipped: spec_skip_break(
                        old(self)@.decisions.skipped,
                        RewindState { named_level, line: old(self)@.current.lineno },
                    ),
                    taken: old(self)@.decisions.taken,
                },
                current: LineBufferV { breaks: line_breaks_skip(old(self)@.current.breaks, named_level), ..old(self)@.current },
                ..old(self)@
            }),
    {
        self.breaks.skip(RewindState { named_level, line: self.current_line.lineno });
        self.current_line.skip(named_level);
    }
}

/// The low-level instructions of some lines, one line after the other.
pub open spec fn lines_lir<S>(lines: Seq<LineV<S>>) -> Seq<crate::printer::lir::LIR<S>>
    decreases lines.len(),
{
    if lines.len() == 0 {
        Seq::empty()
    } else {
        lines_lir(lines.drop_last()) + crate::printer::line::line_lir(lines.last())
    }
}

/// Laid-out lines.
#[derive(Clone, Debug, PartialEq, Eq, Hash)]
pub struct Lines<S> {
    pub lines: Vec<Line<S>>,
}

impl<S: Style> Lines<S> {
    pub fn new(lines: Vec<Line<S>>) -> (result: Lines<S>)
        ensures
            result.lines == lines,
    {
        Lines { lines }
    }

    /// The low-level instructions of the lines.
    pub fn to_lir(self) -> (ops: Vec<crate::printer::lir::LIR<S>>)
        ensures
            ops@ == lines_lir(line_views(self.lines@)),
    {
        let mut ops: Vec<crate::printer::lir::LIR<S>> = Vec::new();
        let ghost views = line_views(self.lines@);
        let mut i: usize = 0;
        while i < self.lines.len()
            invariant
                i <= self.lines@.len(),
                views == line_views(self.lines@),
                ops@ == lines_lir(views.subrange(0, i as int)),
            decreases self.lines@.len() - i,
        {
            assert(views.subrange(0, i + 1).drop_last() =~= views.subrange(0, i as int));
            self.lines[i].append_lir(&mut ops);
            i = i + 1;
        }
        assert(views.subrange(0, i as int) =~= views);
        ops
    }
}

/// The state of a layout run: the lines, and the offset of the next
/// instruction.
pub struct RunV<S> {
    pub buffer: LinesBufferV<S>,
    pub next: nat,
}

/// The state at the start of a layout run.
pub open spec fn spec_run_start<S>(config: PrintConfig) -> RunV<S> {
    RunV { buffer: spec_lines_start(config), next: 0 }
}

/// One step of a layout run: processes the next instruction, keeps a
/// finished line, and goes back to the start of a line where asked to.
pub open spec fn spec_tick<S>(ops: Seq<HIR<S>>, st: RunV<S>) -> Option<RunV<S>>
    recommends
        st.next < ops.len(),
{
    match spec_lines_process(st.buffer, st.next as usize, ops[st.next as int]) {
        None => None,
        Some((b, r)) => match r {
            ProcessResultV::EOF => Some(RunV { buffer: b, next: st.next + 1 }),
            ProcessResultV::Next => Some(RunV { buffer: b, next: st.next + 1 }),
            ProcessResultV::Success(line) => Some(
                RunV { buffer: LinesBufferV { lines: b.lines.push(line), ..b }, next: st.next + 1 },
            ),
            ProcessResultV::Rewind(line) => Some(
                RunV { buffer: spec_rewind(b, line), next: line.hir_offset as nat },
            ),
        },
    }
}

/// The lines that a layout run ends with, where it ends within `fuel` steps
/// without an overflow; `None` otherwise.
pub open spec fn spec_run<S>(ops: Seq<HIR<S>>, st: RunV<S>, fuel: nat) -> Option<Seq<LineV<S>>>
    decreases fuel,
{
    if st.next >= ops.len() {
        Some(st.buffer.lines)
    } else if fuel == 0 {
        None
    } else {
        match spec_tick(ops, st) {
            None => None,
            Some(next) => spec_run(ops, next, (fuel - 1) as nat),
        }
    }
}

/// Whether laying out `ops` ends, without an indentation level, a line
/// number or a line width overflowing.
pub open spec fn lays_out<S>(config: PrintConfig, ops: Seq<HIR<S>>) -> bool {
    exists|fuel: nat| #[trigger] spec_run(ops, spec_run_start(config), fuel) is Some
}

/// The lines that laying out `ops` gives.
pub open spec fn spec_to_lines<S>(config: PrintConfig, ops: Seq<HIR<S>>) -> Seq<LineV<S>> {
    spec_run(ops, spec_run_start(config), run_fuel(config, ops)).unwrap()
}

/// A number of steps within which laying out `ops` ends, where it ends.
pub open spec fn run_fuel<S>(config: PrintConfig, ops: Seq<HIR<S>>) -> nat {
    choose|fuel: nat| #[trigger] spec_run(ops, spec_run_start(config), fuel) is Some
}

/// A layout run over a sequence of instructions.
pub struct ToLines<'ops, S> {
    pub buffer: LinesBuffer<S>,
    pub ops: &'ops [HIR<S>],
    /// The offset of the next instruction.
    pub next: usize,
}

impl<'ops, S> View for ToLines<'ops, S> {
    type V = RunV<S>;

    open spec fn view(&self) -> RunV<S> {
        RunV { buffer: self.buffer@, next: self.next as nat }
    }
}

impl<'ops, S: Style> ToLines<'ops, S> {
    pub fn new(ops: &'ops [HIR<S>], config: PrintConfig) -> (run: ToLines<'ops, S>)
        ensures
            run@ == spec_run_start::<S>(config),
            run.ops@ == ops@,
    {
        ToLines { buffer: LinesBuffer::new(config), ops, next: 0 }
    }

    pub fn done(self) -> (lines: Lines<S>)
        ensures
            line_views(lines.lines@) == self@.buffer.lines,
    {
        self.buffer.done()
    }

    /// Takes one step; returns `true` once every instruction is processed.
    pub fn tick(&mut self) -> (done: bool)
        requires
            old(self).next < old(self).ops@.len() ==> spec_tick(old(self).ops@, old(self)@) is Some,
        ensures
            final(self).ops@ == old(self).ops@,
            done == (old(self).next >= old(self).ops@.len()),
            done ==> final(self)@ == old(self)@,
            !done ==> spec_tick(old(self).ops@, old(self)@) == Some(final(self)@),
    {
        if self.next >= self.ops.len() {
            return true;
        }
        let hir_offset = self.next;
        let op = self.ops[hir_offset];
        self.next = hir_offset + 1;
        match self.buffer.process(hir_offset, op) {
            ProcessResult::EOF => {},
            ProcessResult::Next => {},
            ProcessResult::Flush(FlushResult::Success(line)) => {
                self.buffer.push_line(line);
            },
            ProcessResult::Flush(FlushResult::Rewind(rewind)) => {
                self.buffer.rewind(rewind);
                self.next = rewind.hir_offset;
            },
        }
        false
    }
}

/// Lays out `ops` into lines that fit into the page width where the break
/// opportunities allow it.
pub fn to_lines<S: Style>(config: PrintConfig, ops: &[HIR<S>]) -> (lines: Lines<S>)
    requires
        lays_out(config, ops@),
    ensures
        line_views(lines.lines@) == spec_to_lines(config, ops@),
{
    let ghost fuel = run_fuel(config, ops@);
    let mut run = ToLines::new(ops, config);
    let ghost mut remaining: nat = fuel;
    loop
        invariant
            run.ops@ == ops@,
            fuel == run_fuel(config, ops@),
            spec_run(ops@, spec_run_start::<S>(config), fuel) is Some,
            spec_run(ops@, run@, remaining) == spec_run(ops@, spec_run_start::<S>(config), fuel),
        decreases remaining,
    {
        if run.tick() {
            assert(spec_run(ops@, run@, remaining) == Some(run@.buffer.lines));
            return run.done();
        }
        proof {
            remaining = (remaining - 1) as nat;
        }
    }
}

/// Lays out a sequence of instructions and returns the low-level instructions
/// of the lines.
pub fn layout<S: Style>(atomic: Atomic<S>, config: PrintConfig) -> (ops: Vec<LIR<S>>)
    requires
        lays_out(config, atomic.children@),
    ensures
        ops@ == lines_lir(spec_to_lines(config, atomic.children@)),
{
    let lines = to_lines(config, atomic.children.as_slice());
    lines.to_lir()
}

/// Whether the skip of group `id` at level `level` is on record.
pub open spec fn recorded(m: SkippedV, level: usize, id: BreakId) -> bool {
    lookup(lookup_or_empty(m, level), id) is Some
}

/// Every break that the current line skipped is on record.
pub open spec fn line_skips_recorded<S>(s: LinesBufferV<S>) -> bool {
    forall|j: int, t: int|
        0 <= j < s.current.breaks.len() && 0 <= t < s.current.breaks[j].1.len() ==> #[trigger] recorded(
            s.decisions.skipped,
            s.current.breaks[j].0,
            s.current.breaks[j].1[t],
        )
}

/// Recording a skip keeps every earlier record, and records that skip.
pub proof fn lemma_skip_break_records(m: SkippedV, r: RewindState, level: usize, id: BreakId)
    ensures
        recorded(m, level, id) ==> recorded(spec_skip_break(m, r), level, id),
        recorded(spec_skip_break(m, r), r.named_level.level, r.named_level.id),
{
    let l = r.named_level.level;
    let inner = lookup_or_empty(m, l);
    match lookup(inner, r.named_level.id) {
        Some(_) => {},
        None => {
            let inner2 = insert_entry(inner, r.named_level.id, r);
            lemma_lookup_insert(m, l, inner2, level);
            lemma_lookup_insert(inner2, r.named_level.id, r, id);
            lemma_lookup_insert(inner, r.named_level.id, r, id);
        },
    }
}

/// Recording a skipped break in a line keeps its breaks on record, where
/// that break is on record.
pub proof fn lemma_line_breaks_skip_recorded(b: Seq<(usize, Seq<BreakId>)>, level: NamedBreakLevel, m: SkippedV)
    requires
        forall|j: int, t: int|
            0 <= j < b.len() && 0 <= t < b[j].1.len() ==> #[trigger] recorded(m, b[j].0, b[j].1[t]),
        recorded(m, level.level, level.id),
    ensures
        ({
            let b2 = line_breaks_skip(b, level);
            forall|j: int, t: int|
                0 <= j < b2.len() && 0 <= t < b2[j].1.len() ==> #[trigger] recorded(m, b2[j].0, b2[j].1[t])
        }),
{
    lemma_key_index(b, level.level);
    let b2 = line_breaks_skip(b, level);
    let ids = lookup_or_empty(b, level.level);
    assert forall|j: int, t: int| 0 <= j < b2.len() && 0 <= t < b2[j].1.len() implies #[trigger] recorded(m, b2[j].0, b2[j].1[t]) by {
        match key_index(b, level.level) {
            Some(i) => {
                if j == i {
                    if t < ids.len() {
                        assert(b2[j].1[t] == b[i].1[t]) by {
                            if !ids.contains(level.id) {
                                assert(ids.push(level.id)[t] == ids[t]);
                            }
                        }
                        assert(recorded(m, b[i].0, b[i].1[t]));
                    } else {
                        assert(b2[j].1[t] == level.id);
                    }
                } else {
                    assert(b2[j] == b[j]);
                    assert(recorded(m, b[j].0, b[j].1[t]));
                }
            },
            None => {
                if j < b.len() {
                    assert(b2[j] == b[j]);
                    assert(recorded(m, b[j].0, b[j].1[t]));
                } else {
                    assert(b2[j].1 == seq![level.id]);
                }
            },
        }
    }
}

/// Processing an instruction within a line keeps the line's skipped breaks.
pub proof fn lemma_process_keeps_breaks<S>(b: LineBufferV<S>, op: HIR<S>)
    requires
        spec_process(b, op) is Some,
    ensures
        spec_process(b, op).unwrap().0.breaks == b.breaks,
{
}

/// Every step of a layout run keeps every break that the current line
/// skipped on record.
pub proof fn lemma_tick_keeps_recorded<S>(ops: Seq<HIR<S>>, st: RunV<S>)
    requires
        st.next < ops.len(),
        line_skips_recorded(st.buffer),
        spec_tick(ops, st) is Some,
    ensures
        line_skips_recorded(spec_tick(ops, st).unwrap().buffer),
{
    let s = st.buffer;
    let op = ops[st.next as int];
    match spec_handle_op(s.decisions.taken, op) {
        HandleOp::Process(op2) => {
            lemma_process_keeps_breaks(s.current, op2);
        },
        HandleOp::Skip(level) => {
            let r = RewindState { named_level: level, line: s.current.lineno };
            let m2 = spec_skip_break(s.decisions.skipped, r);
            assert forall|j: int, t: int|
                0 <= j < s.current.breaks.len() && 0 <= t < s.current.breaks[j].1.len() implies #[trigger] recorded(
                m2,
                s.current.breaks[j].0,
                s.current.breaks[j].1[t],
            ) by {
                assert(recorded(s.decisions.skipped, s.current.breaks[j].0, s.current.breaks[j].1[t]));
                lemma_skip_break_records(s.decisions.skipped, r, s.current.breaks[j].0, s.current.breaks[j].1[t]);
            }
            lemma_skip_break_records(s.decisions.skipped, r, level.level, level.id);
            lemma_line_breaks_skip_recorded(s.current.breaks, level, m2);
        },
    }
}

/// The break that an overflowing line names, if any, is on record, so it can
/// always be taken.
pub proof fn lemma_named_break_on_record<S>(s: LinesBufferV<S>)
    requires
        line_skips_recorded(s),
    ensures
        spec_rewind_for(s.decisions, spec_next_br(s.current.breaks)) is Some,
{
    let b = s.current.breaks;
    lemma_min_key_index(b);
    match min_key_index(b) {
        Some(i) => {
            if b[i].1.len() > 0 {
                assert(recorded(s.decisions.skipped, b[i].0, b[i].1[0]));
                lemma_key_index(s.decisions.skipped, b[i].0);
            }
        },
        None => {},
    }
}

/// A layout run starts with no skipped break, and so with every skipped break
/// on record.
pub proof fn lemma_start_recorded<S>(config: PrintConfig)
    ensures
        line_skips_recorded(spec_lines_start::<S>(config)),
{
}

/// Every skip on record is stored under its own level and group.
pub open spec fn skipped_wf(m: SkippedV) -> bool {
    forall|i: int, j: int|
        0 <= i < m.len() && 0 <= j < m[i].1.len() ==> (#[trigger] m[i].1[j]).1.named_level == (NamedBreakLevel {
            level: m[i].0,
            id: m[i].1[j].0,
        })
}

/// Removing an entry keeps only entries that were there.
pub proof fn lemma_remove_entry_from<K, V>(s: Seq<(K, V)>, k: K)
    ensures
        forall|a: int| 0 <= a < remove_entry(s, k).len() ==> exists|b: int| 0 <= b < s.len() && #[trigger] remove_entry(s, k)[a] == s[b],
{
    lemma_key_index(s, k);
    match key_index(s, k) {
        Some(i) => {
            let r = remove_entry(s, k);
            assert forall|a: int| 0 <= a < r.len() implies exists|b: int| 0 <= b < s.len() && #[trigger] r[a] == s[b] by {
                if a == i {
                    assert(r[a] == s[s.len() - 1]);
                } else {
                    assert(r[a] == s[a]);
                }
            }
        },
        None => {},
    }
}

/// Taking a skipped break out of the record keeps the record well formed.
pub proof fn lemma_take_keeps_wf(m: SkippedV, i: int, k: BreakId)
    requires
        skipped_wf(m),
        0 <= i < m.len(),
    ensures
        skipped_wf(m.update(i, (m[i].0, remove_entry(m[i].1, k)))),
{
    let m2 = m.update(i, (m[i].0, remove_entry(m[i].1, k)));
    lemma_remove_entry_from(m[i].1, k);
    assert forall|a: int, j: int| 0 <= a < m2.len() && 0 <= j < m2[a].1.len() implies (#[trigger] m2[a].1[j]).1.named_level == (NamedBreakLevel {
        level: m2[a].0,
        id: m2[a].1[j].0,
    }) by {
        if a == i {
            let b = choose|b: int| 0 <= b < m[i].1.len() && #[trigger] remove_entry(m[i].1, k)[j] == m[i].1[b];
            assert(m[i].1[b].1.named_level == NamedBreakLevel { level: m[i].0, id: m[i].1[b].0 });
        }
    }
}

/// Recording a skip keeps the record well formed.
pub proof fn lemma_skip_keeps_wf(m: SkippedV, r: RewindState)
    requires
        skipped_wf(m),
    ensures
        skipped_wf(spec_skip_break(m, r)),
{
    let l = r.named_level.level;
    let inner = lookup_or_empty(m, l);
    lemma_key_index(m, l);
    match lookup(inner, r.named_level.id) {
        Some(_) => {},
        None => {
            let inner2 = insert_entry(inner, r.named_level.id, r);
            lemma_key_index(inner, r.named_level.id);
            let m2 = spec_skip_break(m, r);
            assert forall|a: int, j: int| 0 <= a < m2.len() && 0 <= j < m2[a].1.len() implies (#[trigger] m2[a].1[j]).1.named_level == (NamedBreakLevel {
                level: m2[a].0,
                id: m2[a].1[j].0,
            }) by {
                match key_index(m, l) {
                    Some(i) => {
                        if a == i {
                            if j < inner.len() {
                                assert(inner2[j] == inner[j]);
                            }
                        }
                    },
                    None => {
                        if a == m.len() {
                            assert(inner =~= Seq::<(BreakId, RewindState)>::empty());
                        }
                    },
                }
            }
        },
    }
}

/// A skip already on record under the level and group of a new skip covers
/// it, so recording the new skip can leave the record as it is.
pub proof fn lemma_recorded_skip_covers(m: SkippedV, r: RewindState)
    requires
        skipped_wf(m),
        recorded(m, r.named_level.level, r.named_level.id),
    ensures
        spec_implies_skip(
            lookup(lookup_or_empty(m, r.named_level.level), r.named_level.id).unwrap().named_level,
            BreakLevel::Level(r.named_level),
        ),
{
    let l = r.named_level.level;
    lemma_key_index(m, l);
    let i = key_index(m, l).unwrap();
    lemma_key_index(m[i].1, r.named_level.id);
    let j = key_index(m[i].1, r.named_level.id).unwrap();
    assert(m[i].1[j].1.named_level == NamedBreakLevel { level: m[i].0, id: m[i].1[j].0 });
}

/// Every step of a layout run keeps the record of skipped breaks well formed.
pub proof fn lemma_tick_keeps_wf<S>(ops: Seq<HIR<S>>, st: RunV<S>)
    requires
        st.next < ops.len(),
        skipped_wf(st.buffer.decisions.skipped),
        spec_tick(ops, st) is Some,
    ensures
        skipped_wf(spec_tick(ops, st).unwrap().buffer.decisions.skipped),
{
    let s = st.buffer;
    let op = ops[st.next as int];
    let m = s.decisions.skipped;
    match spec_handle_op(s.decisions.taken, op) {
        HandleOp::Process(op2) => {
            match spec_process(s.current, op2) {
                Some((current, ProcessOp::Flush(flush))) => {
                    let s1 = with_current(s, current);
                    let line = spec_finished_line(s1.current, spec_indent_level(flush.next));
                    if line_width(line, s1.current.config) > s1.current.config.page_width {
                        match spec_next_br(s1.current.breaks) {
                            Some(br) => {
                                lemma_key_index(m, br.level);
                                match key_index(m, br.level) {
                                    Some(i) => lemma_take_keeps_wf(m, i, br.id),
                                    None => {},
                                }
                            },
                            None => {
                                lemma_min_nonempty_key_index(m);
                                match min_nonempty_key_index(m) {
                                    Some(i) => lemma_take_keeps_wf(m, i, m[i].1[0].0),
                                    None => {},
                                }
                            },
                        }
                    }
                },
                _ => {},
            }
        },
        HandleOp::Skip(level) => {
            lemma_skip_keeps_wf(m, RewindState { named_level: level, line: s.current.lineno });
        },
    }
}

/// The skipped break taken when an overflowing line names none is the first
/// one of the lowest level that still holds a skipped break, and one is taken
/// whenever any is left.
pub proof fn lemma_take_next_lowest(m: SkippedV)
    requires
        skipped_wf(m),
    ensures
        spec_take_next(m).1 is None <==> forall|j: int| 0 <= j < m.len() ==> (#[trigger] m[j]).1.len() == 0,
        spec_take_next(m).1 matches Some(r) ==> forall|j: int|
            0 <= j < m.len() && (#[trigger] m[j]).1.len() > 0 ==> r.named_level.level <= m[j].0,
        spec_take_next(m).1 matches Some(r) ==> exists|i: int|
            0 <= i < m.len() && m[i].1.len() > 0 && r == (#[trigger] m[i]).1[0].1,
{
    lemma_min_nonempty_key_index(m);
    match min_nonempty_key_index(m) {
        Some(i) => {
            assert(m[i].1[0].1.named_level == NamedBreakLevel { level: m[i].0, id: m[i].1[0].0 });
        },
        None => {},
    }
}

/// A line that a layout step keeps fits the page width, unless it named no
/// skipped break and no skipped break was left to take.
pub proof fn lemma_kept_line_fits<S>(ops: Seq<HIR<S>>, st: RunV<S>)
    requires
        st.next < ops.len(),
        spec_tick(ops, st) is Some,
        spec_tick(ops, st).unwrap().buffer.lines.len() > st.buffer.lines.len(),
    ensures
        ({
            let after = spec_tick(ops, st).unwrap();
            let line = after.buffer.lines.last();
            ||| line_width(line, st.buffer.current.config) <= st.buffer.current.config.page_width
            ||| (spec_next_br(st.buffer.current.breaks) is None && spec_take_next(st.buffer.decisions.skipped).1 is None)
        }),
{
    let s = st.buffer;
    let op = ops[st.next as int];
    match spec_handle_op(s.decisions.taken, op) {
        HandleOp::Process(op2) => {
            lemma_process_keeps_breaks(s.current, op2);
        },
        HandleOp::Skip(_) => {},
    }
}

} // verus!
