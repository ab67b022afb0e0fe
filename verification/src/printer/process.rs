//! What one line does with each instruction.
//!
//! Each line goes through the following stages:
//!
//! Start:
//!   - indentation: consume
//!   - content(interior): ignore
//!   - content(exterior): Interior -> consume
//!   - content(anywhere): Interior -> consume
//!   - break: flush_line -> Indentation
//!
//! Indentation:
//!   - indentation: consume
//!   - content(interior): ignore
//!   - content(exterior): flush_line -> Interior -> consume
//!   - content(anywhere): flush_line -> Interior -> consume
//!   - break -> flush_line -> Indentation
//!
//! Interior:
//!   - indentation -> Buffering([op])
//!   - content(interior) -> Buffering([consume])
//!   - content(exterior) -> Buffering(exterior=consume)
//!   - content(anywhere): consume
//!   - break -> Indentation
//!
//! Buffering:
//!   - indentation -> Buffering([...ops, consume])
//!   - content(interior) -> Buffering([...ops, consume])
//!   - content(exterior) -> flush_interior(ops) -> Buffering(exterior=consume)
//!   - content(anywhere) -> flush_interior(ops) -> Interior -> consume
//!   - break -> flush_exterior(ops) -> Indentation
//!
//! flush_interior emits the buffered text with interior placement;
//! flush_exterior emits the buffered exterior text, if any, and applies the
//! buffered indentation changes.

use vstd::prelude::*;

use crate::printer::hir::{IndentationHIR, TextHIR, TextPlacement, HIR};
use crate::printer::text::Text;
use crate::style::Style;

verus! {

/// The stage a line is in, with its current indentation level.
#[derive(Clone, Copy, Debug, PartialEq, Eq, Hash, Structural)]
pub enum LineStage {
    Start { indent: usize },
    Indentation { indent: usize },
    Interior { indent: usize },
    Buffering { indent: usize },
    EOF,
}

/// The indentation level of a stage (0 once the input has ended).
pub open spec fn spec_indent_level(stage: LineStage) -> usize {
    match stage {
        LineStage::Start { indent } => indent,
        LineStage::Indentation { indent } => indent,
        LineStage::Interior { indent } => indent,
        LineStage::Buffering { indent } => indent,
        LineStage::EOF => 0,
    }
}

/// The same stage with its indentation level set to `indent`.
pub open spec fn with_indent(stage: LineStage, indent: usize) -> LineStage {
    match stage {
        LineStage::Start { .. } => LineStage::Start { indent },
        LineStage::Indentation { .. } => LineStage::Indentation { indent },
        LineStage::Interior { .. } => LineStage::Interior { indent },
        LineStage::Buffering { .. } => LineStage::Buffering { indent },
        LineStage::EOF => LineStage::EOF,
    }
}

/// The stage one level deeper; `None` where the level would overflow.
pub open spec fn spec_indent(stage: LineStage) -> Option<LineStage> {
    if stage is EOF {
        Some(stage)
    } else if spec_indent_level(stage) < usize::MAX {
        Some(with_indent(stage, (spec_indent_level(stage) + 1) as usize))
    } else {
        None
    }
}

/// The stage one level shallower; `None` where the level is already zero.
pub open spec fn spec_outdent(stage: LineStage) -> Option<LineStage> {
    if stage is EOF {
        Some(stage)
    } else if spec_indent_level(stage) > 0 {
        Some(with_indent(stage, (spec_indent_level(stage) - 1) as usize))
    } else {
        None
    }
}

/// Indenting a stage and then outdenting it gives the stage back, and so
/// does outdenting and then indenting.
pub proof fn lemma_indent_outdent_inverse(stage: LineStage)
    ensures
        spec_indent(stage) matches Some(s) ==> spec_outdent(s) == Some(stage),
        spec_outdent(stage) matches Some(s) ==> spec_indent(s) == Some(stage),
{
}

impl LineStage {
    pub fn indent_level(self) -> (indent: usize)
        ensures
            indent == spec_indent_level(self),
    {
        match self {
            LineStage::Start { indent } => indent,
            LineStage::Indentation { indent } => indent,
            LineStage::Interior { indent } => indent,
            LineStage::Buffering { indent } => indent,
            LineStage::EOF => 0,
        }
    }

    pub fn indent(self) -> (next: LineStage)
        requires
            spec_indent(self) is Some,
        ensures
            spec_indent(self) == Some(next),
    {
        match self {
            LineStage::Start { indent } => LineStage::Start { indent: indent + 1 },
            LineStage::Indentation { indent } => LineStage::Indentation { indent: indent + 1 },
            LineStage::Interior { indent } => LineStage::Interior { indent: indent + 1 },
            LineStage::Buffering { indent } => LineStage::Buffering { indent: indent + 1 },
            LineStage::EOF => self,
        }
    }

    pub fn outdent(self) -> (next: LineStage)
        requires
            spec_outdent(self) is Some,
        ensures
            spec_outdent(self) == Some(next),
    {
        match self {
            LineStage::Start { indent } => LineStage::Start { indent: indent - 1 },
            LineStage::Indentation { indent } => LineStage::Indentation { indent: indent - 1 },
            LineStage::Interior { indent } => LineStage::Interior { indent: indent - 1 },
            LineStage::Buffering { indent } => LineStage::Buffering { indent: indent - 1 },
            LineStage::EOF => self,
        }
    }

    /// What to do with `hir` in this stage. Break opportunities that should be
    /// skipped must be filtered out before.
    pub fn do_next<S: Style>(self, hir: HIR<S>) -> (next: NextStage<S>)
        requires
            spec_do_next(self, hir) is Some,
        ensures
            spec_do_next(self, hir) == Some(next),
    {
        match self {
            LineStage::Start { indent } => match hir {
                HIR::Bounded(TextHIR { placement, text }) => match placement {
                    TextPlacement::Interior => NextStage::Ignore,
                    TextPlacement::Exterior | TextPlacement::Anywhere => NextStage::TransitionTo {
                        next: LineStage::Interior { indent },
                        then_consume: Some(text),
                    },
                },
                HIR::Indentation(IndentationHIR::Indent) => NextStage::TransitionTo {
                    next: LineStage::Start { indent: indent + 1 },
                    then_consume: None,
                },
                HIR::Indentation(IndentationHIR::Outdent) => NextStage::TransitionTo {
                    next: LineStage::Start { indent: indent - 1 },
                    then_consume: None,
                },
                HIR::BreakOpportunity(_) => NextStage::FlushLine(
                    FlushLine { next: LineStage::Indentation { indent }, then_consume: None },
                ),
                HIR::EOF => NextStage::FlushLine(
                    FlushLine { next: LineStage::EOF, then_consume: None },
                ),
            },
            LineStage::Indentation { indent } => match hir {
                HIR::Bounded(TextHIR { placement, text }) => match placement {
                    TextPlacement::Interior => NextStage::Ignore,
                    TextPlacement::Exterior | TextPlacement::Anywhere => NextStage::FlushLine(
                        FlushLine { next: LineStage::Interior { indent }, then_consume: Some(text) },
                    ),
                },
                HIR::Indentation(IndentationHIR::Indent) => NextStage::TransitionTo {
                    next: LineStage::Indentation { indent: indent + 1 },
                    then_consume: None,
                },
                HIR::Indentation(IndentationHIR::Outdent) => NextStage::TransitionTo {
                    next: LineStage::Indentation { indent: indent - 1 },
                    then_consume: None,
                },
                HIR::BreakOpportunity(_) => NextStage::FlushLine(
                    FlushLine { next: LineStage::Indentation { indent }, then_consume: None },
                ),
                HIR::EOF => NextStage::FlushLine(
                    FlushLine { next: LineStage::EOF, then_consume: None },
                ),
            },
            LineStage::Interior { indent } => match hir {
                HIR::Bounded(TextHIR { placement, text }) => match placement {
                    TextPlacement::Interior => NextStage::InitializeBuffer {
                        initialize: InitializeBuffer::Interior(text),
                        next: LineStage::Buffering { indent },
                    },
                    TextPlacement::Exterior => NextStage::InitializeBuffer {
                        initialize: InitializeBuffer::Exterior(text),
                        next: LineStage::Buffering { indent },
                    },
                    TextPlacement::Anywhere => NextStage::Consume { consume: text },
                },
                HIR::Indentation(indentation) => NextStage::Buffer {
                    consume: SpeculativeHIR::Indentation(indentation),
                    next: LineStage::Buffering { indent },
                },
                HIR::BreakOpportunity(_) => NextStage::TransitionTo {
                    next: LineStage::Indentation { indent },
                    then_consume: None,
                },
                HIR::EOF => NextStage::FlushLine(
                    FlushLine { next: LineStage::EOF, then_consume: None },
                ),
            },
            LineStage::Buffering { indent } => match hir {
                HIR::Bounded(TextHIR { placement, text }) => match placement {
                    TextPlacement::Interior => NextStage::Buffer {
                        consume: SpeculativeHIR::Interior(text),
                        next: LineStage::Buffering { indent },
                    },
                    TextPlacement::Exterior => NextStage::PeekedExterior {
                        next: LineStage::Buffering { indent },
                        exterior: text,
                    },
                    TextPlacement::Anywhere => NextStage::PeekedAnywhere {
                        next: LineStage::Interior { indent },
                        consume: text,
                    },
                },
                HIR::Indentation(indentation) => NextStage::Buffer {
                    consume: SpeculativeHIR::Indentation(indentation),
                    next: LineStage::Buffering { indent },
                },
                HIR::BreakOpportunity(_) => NextStage::FlushExterior {
                    next: LineStage::Indentation { indent },
                },
                HIR::EOF => NextStage::FlushExteriorAndLine(
                    FlushLine { next: LineStage::EOF, then_consume: None },
                ),
            },
            LineStage::EOF => NextStage::EOF,
        }
    }
}

/// What `do_next` decides; `None` where the indentation level of a line
/// start would overflow or drop below zero.
pub open spec fn spec_do_next<S>(stage: LineStage, hir: HIR<S>) -> Option<NextStage<S>> {
    match stage {
        LineStage::Start { indent } => match hir {
            HIR::Bounded(TextHIR { placement, text }) => match placement {
                TextPlacement::Interior => Some(NextStage::Ignore),
                _ => Some(
                    NextStage::TransitionTo {
                        next: LineStage::Interior { indent },
                        then_consume: Some(text),
                    },
                ),
            },
            HIR::Indentation(IndentationHIR::Indent) => if indent < usize::MAX {
                Some(
                    NextStage::TransitionTo {
                        next: LineStage::Start { indent: (indent + 1) as usize },
                        then_consume: None,
                    },
                )
            } else {
                None
            },
            HIR::Indentation(IndentationHIR::Outdent) => if indent > 0 {
                Some(
                    NextStage::TransitionTo {
                        next: LineStage::Start { indent: (indent - 1) as usize },
                        then_consume: None,
                    },
                )
            } else {
                None
            },
            HIR::BreakOpportunity(_) => Some(
                NextStage::FlushLine(
                    FlushLine { next: LineStage::Indentation { indent }, then_consume: None },
                ),
            ),
            HIR::EOF => Some(
                NextStage::FlushLine(FlushLine { next: LineStage::EOF, then_consume: None }),
            ),
        },
        LineStage::Indentation { indent } => match hir {
            HIR::Bounded(TextHIR { placement, text }) => match placement {
                TextPlacement::Interior => Some(NextStage::Ignore),
                _ => Some(
                    NextStage::FlushLine(
                        FlushLine { next: LineStage::Interior { indent }, then_consume: Some(text) },
                    ),
                ),
            },
            HIR::Indentation(IndentationHIR::Indent) => if indent < usize::MAX {
                Some(
                    NextStage::TransitionTo {
                        next: LineStage::Indentation { indent: (indent + 1) as usize },
                        then_consume: None,
                    },
                )
            } else {
                None
            },
            HIR::Indentation(IndentationHIR::Outdent) => if indent > 0 {
                Some(
                    NextStage::TransitionTo {
                        next: LineStage::Indentation { indent: (indent - 1) as usize },
                        then_consume: None,
                    },
                )
            } else {
                None
            },
            HIR::BreakOpportunity(_) => Some(
                NextStage::FlushLine(
                    FlushLine { next: LineStage::Indentation { indent }, then_consume: None },
                ),
            ),
            HIR::EOF => Some(
                NextStage::FlushLine(FlushLine { next: LineStage::EOF, then_consume: None }),
            ),
        },
        LineStage::Interior { indent } => match hir {
            HIR::Bounded(TextHIR { placement, text }) => match placement {
                TextPlacement::Interior => Some(
                    NextStage::InitializeBuffer {
                        initialize: InitializeBuffer::Interior(text),
                        next: LineStage::Buffering { indent },
                    },
                ),
                TextPlacement::Exterior => Some(
                    NextStage::InitializeBuffer {
                        initialize: InitializeBuffer::Exterior(text),
                        next: LineStage::Buffering { indent },
                    },
                ),
                TextPlacement::Anywhere => Some(NextStage::Consume { consume: text }),
            },
            HIR::Indentation(indentation) => Some(
                NextStage::Buffer {
                    consume: SpeculativeHIR::Indentation(indentation),
                    next: LineStage::Buffering { indent },
                },
            ),
            HIR::BreakOpportunity(_) => Some(
                NextStage::TransitionTo {
                    next: LineStage::Indentation { indent },
                    then_consume: None,
                },
            ),
            HIR::EOF => Some(
                NextStage::FlushLine(FlushLine { next: LineStage::EOF, then_consume: None }),
            ),
        },
        LineStage::Buffering { indent } => match hir {
            HIR::Bounded(TextHIR { placement, text }) => match placement {
                TextPlacement::Interior => Some(
                    NextStage::Buffer {
                        consume: SpeculativeHIR::Interior(text),
                        next: LineStage::Buffering { indent },
                    },
                ),
                TextPlacement::Exterior => Some(
                    NextStage::PeekedExterior {
                        next: LineStage::Buffering { indent },
                        exterior: text,
                    },
                ),
                TextPlacement::Anywhere => Some(
                    NextStage::PeekedAnywhere { next: LineStage::Interior { indent }, consume: text },
                ),
            },
            HIR::Indentation(indentation) => Some(
                NextStage::Buffer {
                    consume: SpeculativeHIR::Indentation(indentation),
                    next: LineStage::Buffering { indent },
                },
            ),
            HIR::BreakOpportunity(_) => Some(
                NextStage::FlushExterior { next: LineStage::Indentation { indent } },
            ),
            HIR::EOF => Some(
                NextStage::FlushExteriorAndLine(
                    FlushLine { next: LineStage::EOF, then_consume: None },
                ),
            ),
        },
        LineStage::EOF => Some(NextStage::EOF),
    }
}

/// End the current line, continue in stage `next`, and then consume the
/// text, if any.
#[derive(Clone, Copy, Debug, PartialEq, Eq, Hash)]
pub struct FlushLine<S> {
    pub next: LineStage,
    pub then_consume: Option<Text<S>>,
}

/// How to start the speculative buffer.
#[derive(Clone, Copy, Debug, PartialEq, Eq, Hash)]
pub enum InitializeBuffer<S> {
    Exterior(Text<S>),
    Interior(Text<S>),
}

/// The decision about one instruction.
#[derive(Clone, Copy, Debug, PartialEq, Eq, Hash)]
pub enum NextStage<S> {
    /// Consume the text into the speculative buffer
    Buffer { next: LineStage, consume: SpeculativeHIR<S> },
    /// Initialize the speculative buffer with a piece of text.
    InitializeBuffer { next: LineStage, initialize: InitializeBuffer<S> },
    /// Consume the text into the complete buffer
    Consume { consume: Text<S> },
    /// Ignore the text
    Ignore,
    /// Flush the current line, and optionally consume the text, if any.
    FlushLine(FlushLine<S>),
    /// Flush any speculative content as exterior content, and then transition.
    FlushExterior { next: LineStage },
    /// Flush any speculative content as exterior content, then flush the line, then transition.
    FlushExteriorAndLine(FlushLine<S>),
    /// Flush any speculative content as interior content, and then transition back into Buffer,
    /// initializing with the Text.
    PeekedExterior { next: LineStage, exterior: Text<S> },
    /// Flush any speculative content as interior content, transition into Interior, and then
    /// consume the Text.
    PeekedAnywhere { next: LineStage, consume: Text<S> },
    /// Transition to a new stage, and then optionally consume the Text.
    TransitionTo { next: LineStage, then_consume: Option<Text<S>> },
    /// Nothing left to do
    EOF,
}

/// Instructions whose placement is not known yet.
#[derive(Clone, Copy, Debug, PartialEq, Eq, Hash)]
pub enum SpeculativeHIR<S> {
    /// Text with interior placement. It is emitted if other text is
    /// subsequently emitted on the same line.
    Interior(Text<S>),
    /// An indentation change. It is applied if a break occurs before any other
    /// text is emitted.
    Indentation(IndentationHIR),
}

/// An indentation change, buffered.
impl<S> From<IndentationHIR> for SpeculativeHIR<S> {
    fn from(indent: IndentationHIR) -> (hir: SpeculativeHIR<S>) {
        SpeculativeHIR::Indentation(indent)
    }
}

impl<S> vstd::std_specs::convert::FromSpecImpl<IndentationHIR> for SpeculativeHIR<S> {
    open spec fn obeys_from_spec() -> bool {
        true
    }

    open spec fn from_spec(indent: IndentationHIR) -> SpeculativeHIR<S> {
        SpeculativeHIR::Indentation(indent)
    }
}

/// An interior text, buffered.
impl<S> From<Text<S>> for SpeculativeHIR<S> {
    fn from(text: Text<S>) -> (hir: SpeculativeHIR<S>) {
        SpeculativeHIR::Interior(text)
    }
}

impl<S> vstd::std_specs::convert::FromSpecImpl<Text<S>> for SpeculativeHIR<S> {
    open spec fn obeys_from_spec() -> bool {
        true
    }

    open spec fn from_spec(text: Text<S>) -> SpeculativeHIR<S> {
        SpeculativeHIR::Interior(text)
    }
}

/// The interior texts of `s`, in order.
pub open spec fn interior_texts<S>(s: Seq<SpeculativeHIR<S>>) -> Seq<Text<S>>
    decreases s.len(),
{
    if s.len() == 0 {
        Seq::empty()
    } else {
        let rest = interior_texts(s.drop_last());
        match s.last() {
            SpeculativeHIR::Interior(text) => rest.push(text),
            SpeculativeHIR::Indentation(_) => rest,
        }
    }
}

/// The indentation changes of `s`, in order.
pub open spec fn indentation_ops<S>(s: Seq<SpeculativeHIR<S>>) -> Seq<IndentationHIR>
    decreases s.len(),
{
    if s.len() == 0 {
        Seq::empty()
    } else {
        let rest = indentation_ops(s.drop_last());
        match s.last() {
            SpeculativeHIR::Interior(_) => rest,
            SpeculativeHIR::Indentation(op) => rest.push(op),
        }
    }
}

/// Instructions buffered while it is not yet known whether they are in the
/// interior of a line or at its end.
///
/// The buffer is resolved with interior placement when more text follows on
/// the same line (the buffered interior text is kept), and with exterior
/// placement when the line breaks (the buffered exterior text is kept and the
/// buffered indentation changes apply).
#[derive(Clone, Debug, PartialEq, Eq, Hash)]
pub struct SpeculativeBuffer<S> {
    /// Optionally, a buffered exterior text.
    pub exterior_op: Option<Text<S>>,
    /// The buffered interior text and indentation changes.
    pub buffer: Vec<SpeculativeHIR<S>>,
}

/// An empty buffer.
impl<S: Style> Default for SpeculativeBuffer<S> {
    fn default() -> (buffer: SpeculativeBuffer<S>)
        ensures
            buffer.exterior_op is None,
            buffer.buffer@ == Seq::<SpeculativeHIR<S>>::empty(),
    {
        SpeculativeBuffer::new()
    }
}

impl<S: Style> SpeculativeBuffer<S> {
    pub fn new() -> (buffer: SpeculativeBuffer<S>)
        ensures
            buffer.exterior_op is None,
            buffer.buffer@ == Seq::<SpeculativeHIR<S>>::empty(),
    {
        SpeculativeBuffer { exterior_op: None, buffer: Vec::new() }
    }

    pub fn push(&mut self, op: SpeculativeHIR<S>)
        ensures
            final(self).exterior_op == old(self).exterior_op,
            final(self).buffer@ == old(self).buffer@.push(op),
    {
        self.buffer.push(op);
    }

    pub fn initialize(&mut self, initialize: InitializeBuffer<S>)
        ensures
            match initialize {
                InitializeBuffer::Exterior(exterior) => final(self).exterior_op == Some(exterior)
                    && final(self).buffer@ == old(self).buffer@,
                InitializeBuffer::Interior(interior) => final(self).exterior_op
                    == old(self).exterior_op && final(self).buffer@ == old(self).buffer@.push(
                    SpeculativeHIR::Interior(interior),
                ),
            },
    {
        match initialize {
            InitializeBuffer::Exterior(exterior) => self.exterior_op = Some(exterior),
            InitializeBuffer::Interior(interior) => self.buffer.push(
                SpeculativeHIR::Interior(interior),
            ),
        }
    }

    /// Resolves the buffer at the end of a line: returns the exterior text, if
    /// any, and the buffered indentation changes, and empties the buffer.
    pub fn flush_exterior(&mut self) -> (flushed: (Option<Text<S>>, Vec<IndentationHIR>))
        ensures
            flushed.0 == old(self).exterior_op,
            flushed.1@ == indentation_ops(old(self).buffer@),
            final(self).exterior_op is None,
            final(self).buffer@ == Seq::<SpeculativeHIR<S>>::empty(),
    {
        let mut ops: Vec<IndentationHIR> = Vec::new();
        let mut i: usize = 0;
        while i < self.buffer.len()
            invariant
                i <= self.buffer@.len(),
                ops@ == indentation_ops(self.buffer@.subrange(0, i as int)),
            decreases self.buffer@.len() - i,
        {
            assert(self.buffer@.subrange(0, i + 1).drop_last() =~= self.buffer@.subrange(0, i as int));
            match self.buffer[i] {
                SpeculativeHIR::Interior(_) => {},
                SpeculativeHIR::Indentation(op) => ops.push(op),
            }
            i = i + 1;
        }
        assert(self.buffer@.subrange(0, i as int) =~= self.buffer@);
        let text = self.exterior_op;
        self.exterior_op = None;
        self.buffer = Vec::new();
        (text, ops)
    }

    /// Resolves the buffer before more text on the same line: drops the
    /// exterior text, returns the buffered interior text, and empties the
    /// buffer.
    pub fn flush_interior(&mut self) -> (flushed: Vec<Text<S>>)
        ensures
            flushed@ == interior_texts(old(self).buffer@),
            final(self).exterior_op is None,
            final(self).buffer@ == Seq::<SpeculativeHIR<S>>::empty(),
    {
        let mut texts: Vec<Text<S>> = Vec::new();
        let mut i: usize = 0;
        while i < self.buffer.len()
            invariant
                i <= self.buffer@.len(),
                texts@ == interior_texts(self.buffer@.subrange(0, i as int)),
            decreases self.buffer@.len() - i,
        {
            assert(self.buffer@.subrange(0, i + 1).drop_last() =~= self.buffer@.subrange(0, i as int));
            match self.buffer[i] {
                SpeculativeHIR::Interior(text) => texts.push(text),
                SpeculativeHIR::Indentation(_) => {},
            }
            i = i + 1;
        }
        assert(self.buffer@.subrange(0, i as int) =~= self.buffer@);
        self.exterior_op = None;
        self.buffer = Vec::new();
        texts
    }
}

} // verus!
