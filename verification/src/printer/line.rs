//! One line of output while it is being laid out.

use vstd::prelude::*;

use crate::printer::config::{spec_indent_width, PrintConfig};
use crate::printer::hir::{BreakId, IndentationHIR, NamedBreakLevel, HIR};
use crate::printer::lir::LIR;
use crate::printer::process::{
    indentation_ops, interior_texts, spec_do_next, spec_indent, spec_indent_level, spec_outdent,
    FlushLine, InitializeBuffer, LineStage, NextStage, SpeculativeBuffer, SpeculativeHIR,
};
use crate::printer::text::Text;
use crate::style::Style;
use crate::utils::assoc::{insert_entry, lemma_key_index, lookup};
use crate::utils::set::set_add;
use crate::utils::{WystMap, WystSet};

verus! {

/// The value stored under `k`, or the empty sequence.
pub open spec fn lookup_or_empty<K, X>(s: Seq<(K, Seq<X>)>, k: K) -> Seq<X> {
    match lookup(s, k) {
        Some(v) => v,
        None => Seq::empty(),
    }
}

/// The position of the entry with the least key (the first of equals).
pub open spec fn min_key_index<X>(s: Seq<(usize, X)>) -> Option<int>
    decreases s.len(),
{
    if s.len() == 0 {
        None
    } else {
        match min_key_index(s.drop_last()) {
            None => Some(s.len() - 1),
            Some(i) => if s.last().0 < s[i].0 {
                Some(s.len() - 1)
            } else {
                Some(i)
            },
        }
    }
}

/// The entry that `min_key_index` finds has the least key of all entries.
pub proof fn lemma_min_key_index<X>(s: Seq<(usize, X)>)
    ensures
        s.len() == 0 <==> min_key_index(s) is None,
        min_key_index(s) matches Some(i) ==> 0 <= i < s.len(),
        min_key_index(s) matches Some(i) ==> forall|j: int| 0 <= j < s.len() ==> s[i].0 <= #[trigger] s[j].0,
    decreases s.len(),
{
    if s.len() > 0 {
        let p = s.drop_last();
        lemma_min_key_index(p);
        match min_key_index(s) {
            Some(i) => {
                assert forall|j: int| 0 <= j < s.len() implies s[i].0 <= #[trigger] s[j].0 by {
                    if j < p.len() {
                        assert(p[j] == s[j]);
                        match min_key_index(p) {
                            Some(k) => {
                                assert(p[k] == s[k]);
                                assert(p[k].0 <= p[j].0);
                            },
                            None => {},
                        }
                    }
                }
            },
            None => {},
        }
    }
}

/// Finds the entry with the least key.
pub fn find_min_key<X: View>(map: &WystMap<usize, X>) -> (index: Option<usize>)
    ensures
        index matches Some(i) ==> min_key_index(map@) == Some(i as int) && i < map@.len(),
        index is None ==> min_key_index(map@) is None,
{
    let mut best: Option<usize> = None;
    let mut i: usize = 0;
    while i < map.len()
        invariant
            i <= map@.len(),
            best matches Some(b) ==> b < i && min_key_index(map@.subrange(0, i as int)) == Some(
                b as int,
            ),
            best is None ==> i == 0,
        decreases map@.len() - i,
    {
        let ghost prefix = map@.subrange(0, i + 1);
        assert(prefix.drop_last() =~= map@.subrange(0, i as int));
        match best {
            None => {
                best = Some(i);
            },
            Some(b) => {
                if map.key_at(i) < map.key_at(b) {
                    best = Some(i);
                }
            },
        }
        i = i + 1;
    }
    assert(map@.subrange(0, i as int) =~= map@);
    proof {
        lemma_min_key_index(map@);
    }
    best
}

/// The break opportunities that a line skipped, as break levels mapped to the
/// groups whose breaks at that level were skipped.
#[derive(Clone, Debug, PartialEq, Eq, Hash)]
pub struct LineBreaks {
    pub map: WystMap<usize, WystSet<BreakId>>,
}

/// Records that the break `level` was skipped.
pub open spec fn line_breaks_skip(b: Seq<(usize, Seq<BreakId>)>, level: NamedBreakLevel) -> Seq<
    (usize, Seq<BreakId>),
> {
    insert_entry(b, level.level, set_add(lookup_or_empty(b, level.level), level.id))
}

/// The break that should be tried next: the first group skipped at the
/// lowest level skipped in the line.
pub open spec fn spec_next_br(b: Seq<(usize, Seq<BreakId>)>) -> Option<NamedBreakLevel> {
    match min_key_index(b) {
        None => None,
        Some(i) => if b[i].1.len() > 0 {
            Some(NamedBreakLevel { level: b[i].0, id: b[i].1[0] })
        } else {
            None
        },
    }
}

impl LineBreaks {
    pub fn empty() -> (breaks: LineBreaks)
        ensures
            breaks.map@ == Seq::<(usize, Seq<BreakId>)>::empty(),
    {
        LineBreaks { map: WystMap::empty() }
    }

    pub fn skip(&mut self, level: NamedBreakLevel)
        ensures
            final(self).map@ == line_breaks_skip(old(self).map@, level),
    {
        proof {
            lemma_key_index(self.map@, level.level);
        }
        match self.map.find(level.level) {
            Some(i) => {
                let mut set = self.map.replace_value_at(i, WystSet::empty());
                set.add(level.id);
                self.map.set_value_at(i, set);
            },
            None => {
                let mut set = WystSet::empty();
                set.add(level.id);
                self.map.insert(level.level, set);
            },
        }
        assert(self.map@ =~= line_breaks_skip(old(self).map@, level));
    }

    pub fn next_br(&self) -> (br: Option<NamedBreakLevel>)
        ensures
            br == spec_next_br(self.map@),
    {
        match find_min_key(&self.map) {
            None => None,
            Some(i) => {
                let set = self.map.value_at(i);
                if set.len() > 0 {
                    Some(NamedBreakLevel { level: self.map.key_at(i), id: set.at(0) })
                } else {
                    None
                }
            },
        }
    }
}

/// A line's number, the offset of its first instruction, and its indentation
/// level at the start: everything needed to lay it out again.
#[derive(Clone, Copy, Debug, PartialEq, Eq, Hash, Structural)]
pub struct RewindableLine {
    /// The position of this line among the lines. Rewinding to this line
    /// drops it and every line after it.
    pub lineno: usize,
    /// The offset of the instruction that started this line.
    pub hir_offset: usize,
    /// The indentation level at the beginning of this line.
    pub pre_indent: usize,
}

pub open spec fn spec_line_start_stage(line: RewindableLine) -> LineStage {
    if line.lineno == 0 && line.hir_offset == 0 {
        LineStage::Start { indent: line.pre_indent }
    } else {
        LineStage::Indentation { indent: line.pre_indent }
    }
}

impl RewindableLine {
    pub fn first() -> (line: RewindableLine)
        ensures
            line == (RewindableLine { lineno: 0, hir_offset: 0, pre_indent: 0 }),
    {
        RewindableLine { lineno: 0, hir_offset: 0, pre_indent: 0 }
    }

    pub fn next_lineno(self, hir_offset: usize, pre_indent: usize) -> (line: RewindableLine)
        requires
            self.lineno < usize::MAX,
        ensures
            line == (RewindableLine { lineno: (self.lineno + 1) as usize, hir_offset, pre_indent }),
    {
        RewindableLine { lineno: self.lineno + 1, hir_offset, pre_indent }
    }

    /// The stage a line starts in: the very first line starts in `Start`,
    /// every other line in `Indentation`.
    pub fn line_start_stage(self) -> (stage: LineStage)
        ensures
            stage == spec_line_start_stage(self),
    {
        if self.lineno == 0 && self.hir_offset == 0 {
            LineStage::Start { indent: self.pre_indent }
        } else {
            LineStage::Indentation { indent: self.pre_indent }
        }
    }
}

/// The total byte length of some texts.
pub open spec fn texts_len<S>(texts: Seq<Text<S>>) -> int
    decreases texts.len(),
{
    if texts.len() == 0 {
        0
    } else {
        texts_len(texts.drop_last()) + texts.last().len
    }
}

pub proof fn lemma_texts_len_prefix<S>(texts: Seq<Text<S>>, i: int)
    requires
        0 <= i <= texts.len(),
    ensures
        0 <= texts_len(texts.subrange(0, i)) <= texts_len(texts),
    decreases texts.len() - i,
{
    if i < texts.len() {
        lemma_texts_len_prefix(texts, i + 1);
        lemma_texts_len_nonneg(texts.subrange(0, i));
        assert(texts.subrange(0, i + 1).drop_last() =~= texts.subrange(0, i));
        assert(texts_len(texts.subrange(0, i + 1)) == texts_len(texts.subrange(0, i)) + texts[i].len);
    } else {
        assert(texts.subrange(0, i) =~= texts);
        lemma_texts_len_nonneg(texts);
    }
}

pub proof fn lemma_texts_len_nonneg<S>(texts: Seq<Text<S>>)
    ensures
        texts_len(texts) >= 0,
    decreases texts.len(),
{
    if texts.len() > 0 {
        lemma_texts_len_nonneg(texts.drop_last());
    }
}

/// A finished line.
#[derive(Clone, Debug, PartialEq, Eq, Hash)]
pub struct Line<S> {
    /// The texts of this line.
    pub lir: Vec<Text<S>>,
    /// The indentation level at the beginning of this line.
    pub pre_indent: usize,
    /// The indentation level of the line after this one.
    pub post_indent: usize,
    /// The number of this line and the offset of its first instruction.
    pub lineno: RewindableLine,
}

/// The view of a finished line.
pub struct LineV<S> {
    pub lir: Seq<Text<S>>,
    pub pre_indent: usize,
    pub post_indent: usize,
    pub lineno: RewindableLine,
}

impl<S> View for Line<S> {
    type V = LineV<S>;

    open spec fn view(&self) -> LineV<S> {
        LineV {
            lir: self.lir@,
            pre_indent: self.pre_indent,
            post_indent: self.post_indent,
            lineno: self.lineno,
        }
    }
}

/// The byte width of a line: its indentation and its texts.
pub open spec fn line_width<S>(line: LineV<S>, config: PrintConfig) -> int {
    spec_indent_width(config, line.pre_indent as int) + texts_len(line.lir)
}

/// The low-level instructions of a line: its texts, then a break to the
/// indentation of the next line.
pub open spec fn line_lir<S>(line: LineV<S>) -> Seq<LIR<S>> {
    line.lir.map_values(|t: Text<S>| LIR::Bounded(t)).push(LIR::Break(line.post_indent))
}

impl<S: Style> Line<S> {
    /// Whether the line fits into the page width.
    pub fn fits(&self, config: PrintConfig) -> (fits: bool)
        requires
            line_width(self@, config) <= usize::MAX,
        ensures
            fits == (line_width(self@, config) <= config.page_width),
    {
        let width = self.width(config);
        width <= config.page_width
    }

    fn width(&self, config: PrintConfig) -> (width: usize)
        requires
            line_width(self@, config) <= usize::MAX,
        ensures
            width == line_width(self@, config),
    {
        proof {
            lemma_texts_len_nonneg(self.lir@);
            crate::printer::config::lemma_indent_width_nonneg(config, self.pre_indent as int);
        }
        let indent_width = config.indent_width(self.pre_indent);
        let mut text_width: usize = 0;
        let mut i: usize = 0;
        while i < self.lir.len()
            invariant
                i <= self.lir@.len(),
                text_width == texts_len(self.lir@.subrange(0, i as int)),
                indent_width + texts_len(self.lir@) <= usize::MAX,
                indent_width >= 0,
            decreases self.lir@.len() - i,
        {
            proof {
                assert(self.lir@.subrange(0, i + 1).drop_last() =~= self.lir@.subrange(0, i as int));
                lemma_texts_len_prefix(self.lir@, i + 1);
            }
            text_width = text_width + self.lir[i].len;
            i = i + 1;
        }
        assert(self.lir@.subrange(0, i as int) =~= self.lir@);
        indent_width + text_width
    }

    pub fn into_lir(self) -> (ops: Vec<LIR<S>>)
        ensures
            ops@ == line_lir(self@),
    {
        let mut ops: Vec<LIR<S>> = Vec::new();
        self.append_lir(&mut ops);
        ops
    }

    /// Appends the low-level instructions of this line to `ops`.
    pub fn append_lir(&self, ops: &mut Vec<LIR<S>>)
        ensures
            final(ops)@ == old(ops)@ + line_lir(self@),
    {
        let ghost start = ops@;
        let mut i: usize = 0;
        while i < self.lir.len()
            invariant
                i <= self.lir@.len(),
                ops@ == start + self.lir@.subrange(0, i as int).map_values(|t: Text<S>| LIR::Bounded(t)),
            decreases self.lir@.len() - i,
        {
            ops.push(LIR::Bounded(self.lir[i]));
            i = i + 1;
            assert(ops@ =~= start + self.lir@.subrange(0, i as int).map_values(|t: Text<S>| LIR::Bounded(t)));
        }
        assert(self.lir@.subrange(0, i as int) =~= self.lir@);
        ops.push(LIR::Break(self.post_indent));
        assert(ops@ =~= start + line_lir(self@));
    }
}

/// What processing one instruction asks of the lines around the line.
#[derive(Clone, Copy, Debug, PartialEq, Eq, Hash)]
pub enum ProcessOp<S> {
    /// The line ends here.
    Flush(FlushLine<S>),
    /// Nothing more to do.
    Nothing,
    /// The input has ended.
    EOF,
}

/// The stage reached from `stage` by applying the indentation changes `ops`
/// in order; `None` where a level would overflow or drop below zero.
pub open spec fn apply_indentation(stage: LineStage, ops: Seq<IndentationHIR>) -> Option<LineStage>
    decreases ops.len(),
{
    if ops.len() == 0 {
        Some(stage)
    } else {
        match apply_indentation(stage, ops.drop_last()) {
            None => None,
            Some(s) => match ops.last() {
                IndentationHIR::Indent => spec_indent(s),
                IndentationHIR::Outdent => spec_outdent(s),
            },
        }
    }
}

pub proof fn lemma_apply_indentation_prefix(stage: LineStage, ops: Seq<IndentationHIR>, i: int)
    requires
        0 <= i <= ops.len(),
        apply_indentation(stage, ops) is Some,
    ensures
        apply_indentation(stage, ops.subrange(0, i)) is Some,
    decreases ops.len() - i,
{
    if i == ops.len() {
        assert(ops.subrange(0, i) =~= ops);
    } else {
        lemma_apply_indentation_prefix(stage, ops, i + 1);
        assert(ops.subrange(0, i + 1).drop_last() =~= ops.subrange(0, i));
    }
}

/// The view of a line that is being laid out.
pub struct LineBufferV<S> {
    /// The texts that are certainly on the line.
    pub lir: Seq<Text<S>>,
    pub lineno: RewindableLine,
    pub stage: LineStage,
    pub config: PrintConfig,
    /// The buffered exterior text.
    pub exterior: Option<Text<S>>,
    /// The buffered interior texts and indentation changes.
    pub pending: Seq<SpeculativeHIR<S>>,
    /// The break opportunities that the line skipped.
    pub breaks: Seq<(usize, Seq<BreakId>)>,
}

/// The line buffer at the start of line `lineno`.
pub open spec fn spec_start_line<S>(lineno: RewindableLine, config: PrintConfig) -> LineBufferV<S> {
    LineBufferV {
        lir: Seq::empty(),
        lineno,
        stage: spec_line_start_stage(lineno),
        config,
        exterior: None,
        pending: Seq::empty(),
        breaks: Seq::empty(),
    }
}

/// Resolves the speculative buffer at the end of a line: the exterior text
/// joins the line, the buffered indentation changes apply to `next`.
pub open spec fn spec_flush_exterior<S>(b: LineBufferV<S>, next: LineStage) -> Option<
    LineBufferV<S>,
> {
    match apply_indentation(next, indentation_ops(b.pending)) {
        None => None,
        Some(stage) => Some(
            LineBufferV {
                lir: match b.exterior {
                    Some(t) => b.lir.push(t),
                    None => b.lir,
                },
                lineno: b.lineno,
                stage,
                config: b.config,
                exterior: None,
                pending: Seq::empty(),
                breaks: b.breaks,
            },
        ),
    }
}

/// The buffer with stage `stage` and texts `lir`.
pub open spec fn with_stage_lir<S>(b: LineBufferV<S>, stage: LineStage, lir: Seq<Text<S>>) -> LineBufferV<S> {
    LineBufferV {
        lir,
        lineno: b.lineno,
        stage,
        config: b.config,
        exterior: b.exterior,
        pending: b.pending,
        breaks: b.breaks,
    }
}

/// The buffer with stage `stage`, buffered exterior `exterior` and buffered
/// instructions `pending`.
pub open spec fn with_pending<S>(
    b: LineBufferV<S>,
    stage: LineStage,
    exterior: Option<Text<S>>,
    pending: Seq<SpeculativeHIR<S>>,
) -> LineBufferV<S> {
    LineBufferV {
        lir: b.lir,
        lineno: b.lineno,
        stage,
        config: b.config,
        exterior,
        pending,
        breaks: b.breaks,
    }
}

/// What processing `op` does to a line buffer, and what it asks of the lines
/// around it; `None` where an indentation level would overflow or drop below
/// zero.
pub open spec fn spec_process<S>(b: LineBufferV<S>, op: HIR<S>) -> Option<(LineBufferV<S>, ProcessOp<S>)> {
    match spec_do_next(b.stage, op) {
        None => None,
        Some(decision) => match decision {
            NextStage::Buffer { next, consume } => Some(
                (with_pending(b, next, b.exterior, b.pending.push(consume)), ProcessOp::Nothing),
            ),
            NextStage::InitializeBuffer { next, initialize } => match initialize {
                InitializeBuffer::Exterior(t) => Some(
                    (with_pending(b, next, Some(t), b.pending), ProcessOp::Nothing),
                ),
                InitializeBuffer::Interior(t) => Some(
                    (
                        with_pending(b, next, b.exterior, b.pending.push(SpeculativeHIR::Interior(t))),
                        ProcessOp::Nothing,
                    ),
                ),
            },
            NextStage::Consume { consume } => Some(
                (with_stage_lir(b, b.stage, b.lir.push(consume)), ProcessOp::Nothing),
            ),
            NextStage::Ignore => Some((b, ProcessOp::Nothing)),
            NextStage::FlushExteriorAndLine(flush) => match spec_flush_exterior(b, flush.next) {
                None => None,
                Some(b2) => Some((b2, ProcessOp::Flush(flush))),
            },
            NextStage::FlushLine(flush) => Some((b, ProcessOp::Flush(flush))),
            NextStage::FlushExterior { next } => match spec_flush_exterior(b, next) {
                None => None,
                Some(b2) => Some((b2, ProcessOp::Nothing)),
            },
            NextStage::PeekedExterior { next, exterior } => Some(
                (
                    with_pending(
                        with_stage_lir(b, next, b.lir + interior_texts(b.pending)),
                        next,
                        Some(exterior),
                        Seq::empty(),
                    ),
                    ProcessOp::Nothing,
                ),
            ),
            NextStage::PeekedAnywhere { next, consume } => Some(
                (
                    with_pending(
                        with_stage_lir(b, next, (b.lir + interior_texts(b.pending)).push(consume)),
                        next,
                        None,
                        Seq::empty(),
                    ),
                    ProcessOp::Nothing,
                ),
            ),
            NextStage::TransitionTo { next, then_consume } => Some(
                (
                    with_stage_lir(
                        b,
                        next,
                        match then_consume {
                            Some(t) => b.lir.push(t),
                            None => b.lir,
                        },
                    ),
                    ProcessOp::Nothing,
                ),
            ),
            NextStage::EOF => Some((b, ProcessOp::EOF)),
        },
    }
}

/// The line that a buffer becomes when it ends before a line at
/// indentation level `post_indent`.
pub open spec fn spec_finished_line<S>(b: LineBufferV<S>, post_indent: usize) -> LineV<S> {
    LineV { lir: b.lir, pre_indent: b.lineno.pre_indent, post_indent, lineno: b.lineno }
}

/// Processes instructions into one line, and remembers the break
/// opportunities that the line skipped. A line that overflows the page width
/// names the skipped break that should be taken.
#[derive(Clone, Debug, PartialEq, Eq, Hash)]
pub struct LineBuffer<S> {
    pub lir: Vec<Text<S>>,
    pub lineno: RewindableLine,
    pub stage: LineStage,
    pub config: PrintConfig,
    pub buffer: SpeculativeBuffer<S>,
    pub breaks: LineBreaks,
}

impl<S> View for LineBuffer<S> {
    type V = LineBufferV<S>;

    open spec fn view(&self) -> LineBufferV<S> {
        LineBufferV {
            lir: self.lir@,
            lineno: self.lineno,
            stage: self.stage,
            config: self.config,
            exterior: self.buffer.exterior_op,
            pending: self.buffer.buffer@,
            breaks: self.breaks.map@,
        }
    }
}

/// What a line buffer turns into at the end of a line.
#[derive(Clone, Debug, PartialEq, Eq, Hash)]
pub enum FlushedLine<S> {
    /// The line fits.
    Flushed(Line<S>),
    /// The line overflows; `try_skip` is the skipped break to take, if the
    /// line skipped any, and `line` is the line to keep if no break is left.
    NoFit { try_skip: Option<NamedBreakLevel>, line: Line<S> },
}

impl<S: Style> LineBuffer<S> {
    /// The buffer of the first line.
    pub fn first(config: PrintConfig) -> (buffer: LineBuffer<S>)
        ensures
            buffer@ == spec_start_line::<S>(
                RewindableLine { lineno: 0, hir_offset: 0, pre_indent: 0 },
                config,
            ),
    {
        LineBuffer::start_line(RewindableLine::first(), config)
    }

    /// The buffer of a line that starts at `lineno`.
    pub fn start_line(lineno: RewindableLine, config: PrintConfig) -> (buffer: LineBuffer<S>)
        ensures
            buffer@ == spec_start_line::<S>(lineno, config),
    {
        let buffer = LineBuffer {
            lir: Vec::new(),
            lineno,
            stage: lineno.line_start_stage(),
            config,
            buffer: SpeculativeBuffer::default(),
            breaks: LineBreaks::empty(),
        };
        assert(buffer@.lir =~= Seq::<Text<S>>::empty());
        assert(buffer@.pending =~= Seq::<SpeculativeHIR<S>>::empty());
        buffer
    }

    /// The buffer of the line after this one, which starts at `hir_offset`.
    pub fn next_buf(&self, hir_offset: usize, config: PrintConfig) -> (buffer: LineBuffer<S>)
        requires
            self.lineno.lineno < usize::MAX,
        ensures
            buffer@ == spec_start_line::<S>(
                RewindableLine {
                    lineno: (self.lineno.lineno + 1) as usize,
                    hir_offset,
                    pre_indent: spec_indent_level(self.stage),
                },
                config,
            ),
    {
        LineBuffer::start_line(self.lineno.next_lineno(hir_offset, self.stage.indent_level()), config)
    }

    /// Ends the line before a line in stage `flush.next`.
    pub fn flush(self, flush: FlushLine<S>) -> (flushed: FlushedLine<S>)
        requires
            line_width(spec_finished_line(self@, spec_indent_level(flush.next)), self.config)
                <= usize::MAX,
        ensures
            ({
                let line = spec_finished_line(self@, spec_indent_level(flush.next));
                match flushed {
                    FlushedLine::Flushed(l) => l@ == line && line_width(line, self.config)
                        <= self.config.page_width,
                    FlushedLine::NoFit { try_skip, line: l } => l@ == line && line_width(
                        line,
                        self.config,
                    ) > self.config.page_width && try_skip == spec_next_br(self.breaks.map@),
                }
            }),
    {
        let next_line = Line {
            lir: self.lir,
            pre_indent: self.lineno.pre_indent,
            post_indent: flush.next.indent_level(),
            lineno: self.lineno,
        };
        if next_line.fits(self.config) {
            FlushedLine::Flushed(next_line)
        } else {
            FlushedLine::NoFit { line: next_line, try_skip: self.breaks.next_br() }
        }
    }

    /// Records that the line skipped the break `level`.
    pub fn skip(&mut self, level: NamedBreakLevel)
        ensures
            final(self)@ == (LineBufferV { breaks: line_breaks_skip(old(self)@.breaks, level), ..old(self)@ }),
    {
        self.breaks.skip(level);
    }

    /// Adds a text to the line.
    pub fn push(&mut self, text: Text<S>)
        ensures
            final(self)@ == with_stage_lir(old(self)@, old(self)@.stage, old(self)@.lir.push(text)),
    {
        self.lir.push(text);
    }

    fn flush_exterior(&mut self, next: LineStage)
        requires
            spec_flush_exterior(old(self)@, next) is Some,
        ensures
            spec_flush_exterior(old(self)@, next) == Some(final(self)@),
    {
        let (exterior, indents) = self.buffer.flush_exterior();
        if let Some(exterior) = exterior {
            self.lir.push(exterior);
        }
        let mut stage = next;
        let mut i: usize = 0;
        proof {
            assert(indents@ =~= indentation_ops(old(self)@.pending));
        }
        while i < indents.len()
            invariant
                i <= indents@.len(),
                indents@ == indentation_ops(old(self)@.pending),
                apply_indentation(next, indents@) is Some,
                apply_indentation(next, indents@.subrange(0, i as int)) == Some(stage),
            decreases indents@.len() - i,
        {
            proof {
                lemma_apply_indentation_prefix(next, indents@, i + 1);
                assert(indents@.subrange(0, i + 1).drop_last() =~= indents@.subrange(0, i as int));
            }
            match indents[i] {
                IndentationHIR::Indent => {
                    stage = stage.indent();
                },
                IndentationHIR::Outdent => {
                    stage = stage.outdent();
                },
            }
            i = i + 1;
        }
        assert(indents@.subrange(0, i as int) =~= indents@);
        self.stage = stage;
    }

    /// Processes one instruction.
    pub fn process(&mut self, op: HIR<S>) -> (result: ProcessOp<S>)
        requires
            spec_process(old(self)@, op) is Some,
        ensures
            spec_process(old(self)@, op) == Some((final(self)@, result)),
    {
        let next = self.stage.do_next(op);
        match next {
            NextStage::Buffer { next, consume } => {
                self.buffer.push(consume);
                self.stage = next;
            },
            NextStage::InitializeBuffer { next, initialize } => {
                self.buffer.initialize(initialize);
                self.stage = next;
            },
            NextStage::Consume { consume } => {
                self.lir.push(consume);
            },
            NextStage::Ignore => {},
            NextStage::FlushExteriorAndLine(flush) => {
                self.flush_exterior(flush.next);
                return ProcessOp::Flush(flush);
            },
            NextStage::FlushLine(flush) => {
                return ProcessOp::Flush(flush);
            },
            NextStage::FlushExterior { next } => {
                self.flush_exterior(next);
            },
            NextStage::PeekedExterior { next, exterior } => {
                let mut interior = self.buffer.flush_interior();
                self.lir.append(&mut interior);
                self.stage = next;
                self.buffer.initialize(InitializeBuffer::Exterior(exterior));
            },
            NextStage::PeekedAnywhere { next, consume } => {
                let mut interior = self.buffer.flush_interior();
                self.lir.append(&mut interior);
                self.stage = next;
                self.lir.push(consume);
            },
            NextStage::TransitionTo { next, then_consume } => {
                self.stage = next;
                if let Some(then_consume) = then_consume {
                    self.lir.push(then_consume);
                }
            },
            NextStage::EOF => {
                return ProcessOp::EOF;
            },
        }
        ProcessOp::Nothing
    }
}

} // verus!
