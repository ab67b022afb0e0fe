//! Builders of instruction sequences.

use vstd::prelude::*;

use crate::printer::hir::{
    Atomic, BreakId, BreakLevel, BreakOpportunity, IndentationHIR, NamedBreakLevel, TextHIR,
    TextPlacement, HIR,
};
use crate::printer::lir::LIR;
use crate::printer::text::{max_interned, Text, Texts};
use crate::source::chars_width;
use crate::style::Style;

verus! {

/// Whether `texts` is `before` after interning `text`, and `t` refers to
/// `text` there with the style `style`.
pub open spec fn interned<S>(before: Seq<Seq<char>>, texts: Seq<Seq<char>>, text: Seq<char>, t: Text<S>, style: S) -> bool {
    &&& texts == (if before.contains(text) {
        before
    } else {
        before.push(text)
    })
    &&& t.text < texts.len()
    &&& t.text < max_interned()
    &&& texts[t.text as int] == text
    &&& t.len == chars_width(text)
    &&& t.style == style
}

/// The view of a builder of instructions.
pub struct HirBuilderV<S> {
    /// The interned strings.
    pub texts: Seq<Seq<char>>,
    /// The group whose break opportunities are being added.
    pub current_id: BreakId,
    /// The enclosing groups, innermost last.
    pub id_stack: Seq<BreakId>,
    /// The instructions so far.
    pub current: Seq<HIR<S>>,
}

/// The builder with `hir` added.
pub open spec fn hir_added<S>(b: HirBuilderV<S>, hir: HIR<S>) -> HirBuilderV<S> {
    HirBuilderV { current: b.current.push(hir), ..b }
}

/// The builder after starting the group `id`.
pub open spec fn group_started<S>(b: HirBuilderV<S>, id: BreakId) -> HirBuilderV<S> {
    HirBuilderV { current_id: id, id_stack: b.id_stack.push(b.current_id), ..b }
}

/// The builder after ending the innermost group.
pub open spec fn group_ended<S>(b: HirBuilderV<S>) -> HirBuilderV<S> {
    HirBuilderV { current_id: b.id_stack.last(), id_stack: b.id_stack.drop_last(), ..b }
}

/// Whether `after` is `before` with `text` interned and added with `style`
/// and `placement`.
pub open spec fn text_added<S>(
    before: HirBuilderV<S>,
    after: HirBuilderV<S>,
    text: Seq<char>,
    style: S,
    placement: TextPlacement,
) -> bool {
    exists|t: Text<S>|
        #![trigger interned(before.texts, after.texts, text, t, style)]
        interned(before.texts, after.texts, text, t, style) && after == HirBuilderV {
            texts: after.texts,
            ..hir_added(before, HIR::Bounded(TextHIR { placement, text: t }))
        }
}

/// A builder's instructions stay resolvable from its interned strings as
/// text is added: strings are only ever added to the interner, and an added
/// text refers to its string there.
pub proof fn lemma_text_added_resolvable<S>(
    before: HirBuilderV<S>,
    after: HirBuilderV<S>,
    text: Seq<char>,
    style: S,
    placement: TextPlacement,
)
    requires
        crate::printer::printing::hir_resolvable(before.current, before.texts),
        text_added(before, after, text, style, placement),
    ensures
        crate::printer::printing::hir_resolvable(after.current, after.texts),
{
    let t = choose|t: Text<S>|
        #![trigger interned(before.texts, after.texts, text, t, style)]
        interned(before.texts, after.texts, text, t, style) && after == HirBuilderV {
            texts: after.texts,
            ..hir_added(before, HIR::Bounded(TextHIR { placement, text: t }))
        };
    assert forall|i: int| 0 <= i < after.current.len() implies match #[trigger] after.current[i] {
        HIR::Bounded(th) => th.text.text < after.texts.len() && th.text.text < max_interned(),
        _ => true,
    } by {
        if i < before.current.len() {
            assert(after.current[i] == before.current[i]);
        }
    }
}

/// Adding an instruction that holds no text keeps a builder's instructions
/// resolvable.
pub proof fn lemma_hir_added_resolvable<S>(before: HirBuilderV<S>, hir: HIR<S>)
    requires
        crate::printer::printing::hir_resolvable(before.current, before.texts),
        !(hir is Bounded),
    ensures
        crate::printer::printing::hir_resolvable(hir_added(before, hir).current, before.texts),
{
    let after = hir_added(before, hir);
    assert forall|i: int| 0 <= i < after.current.len() implies match #[trigger] after.current[i] {
        HIR::Bounded(th) => th.text.text < before.texts.len() && th.text.text < max_interned(),
        _ => true,
    } by {
        if i < before.current.len() {
            assert(after.current[i] == before.current[i]);
        }
    }
}

/// Builds a sequence of instructions, interning its strings into a `Texts`.
pub struct HirBuilder<'texts, S> {
    pub texts: &'texts mut Texts,
    pub current_id: BreakId,
    pub id_stack: Vec<BreakId>,
    pub current: Vec<HIR<S>>,
}

/// Ending a group right after starting it gives the builder back.
pub proof fn lemma_group_balanced<S>(b: HirBuilderV<S>, id: BreakId)
    ensures
        group_ended(group_started(b, id)) == b,
{
    assert(b.id_stack.push(b.current_id).drop_last() =~= b.id_stack);
}

impl<'texts, S> View for HirBuilder<'texts, S> {
    type V = HirBuilderV<S>;

    open spec fn view(&self) -> HirBuilderV<S> {
        HirBuilderV {
            texts: self.texts@,
            current_id: self.current_id,
            id_stack: self.id_stack@,
            current: self.current@,
        }
    }
}

impl<'texts, S: Style> HirBuilder<'texts, S> {
    pub fn new(texts: &'texts mut Texts) -> (builder: HirBuilder<'texts, S>)
        ensures
            builder@ == (HirBuilderV::<S> {
                texts: old(texts)@,
                current_id: BreakId::Id(0),
                id_stack: Seq::empty(),
                current: Seq::empty(),
            }),
            *final(builder.texts) == *final(texts),
    {
        let builder = HirBuilder {
            texts,
            current_id: BreakId::default(),
            id_stack: Vec::new(),
            current: Vec::new(),
        };
        assert(builder@.id_stack =~= Seq::<BreakId>::empty());
        assert(builder@.current =~= Seq::<HIR<S>>::empty());
        builder
    }

    /// The instructions, ended by `EOF`.
    pub fn done(self) -> (atomic: Atomic<S>)
        ensures
            atomic.children@ == self@.current.push(HIR::EOF),
    {
        let mut builder = self;
        builder.current.push(HIR::EOF);
        Atomic::new(builder.current)
    }

    fn add(self, hir: HIR<S>) -> (builder: Self)
        ensures
            builder@ == hir_added(self@, hir),
    {
        let mut builder = self;
        builder.current.push(hir);
        builder
    }

    /// Adds text in the normal style that may stand anywhere on a line.
    pub fn text(self, text: &str) -> (builder: Self)
        requires
            self@.texts.len() < max_interned(),
        ensures
            text_added(self@, builder@, text@, S::spec_normal(), TextPlacement::Anywhere),
    {
        self.styled(text, S::normal())
    }

    /// Adds text in the normal style with the given placement.
    pub fn text_at(self, text: &str, placement: TextPlacement) -> (builder: Self)
        requires
            self@.texts.len() < max_interned(),
        ensures
            text_added(self@, builder@, text@, S::spec_normal(), placement),
    {
        self.styled_at(text, S::normal(), placement)
    }

    /// Adds styled text that may stand anywhere on a line.
    pub fn styled(self, text: &str, style: S) -> (builder: Self)
        requires
            self@.texts.len() < max_interned(),
        ensures
            text_added(self@, builder@, text@, style, TextPlacement::Anywhere),
    {
        self.styled_at(text, style, TextPlacement::Anywhere)
    }

    /// Adds styled text with the given placement.
    pub fn styled_at(self, text: &str, style: S, placement: TextPlacement) -> (builder: Self)
        requires
            self@.texts.len() < max_interned(),
        ensures
            text_added(self@, builder@, text@, style, placement),
    {
        let mut builder = self;
        let t = builder.texts.styled(text, style);
        let builder = builder.add(HIR::bounded(t, placement));
        assert(interned(self@.texts, builder@.texts, text@, t, style));
        builder
    }

    /// Adds a break opportunity of the current group at `level`.
    pub fn wbr(self, level: usize) -> (builder: Self)
        ensures
            builder@ == hir_added(
                self@,
                HIR::BreakOpportunity(
                    BreakOpportunity {
                        level: BreakLevel::Level(NamedBreakLevel { level, id: self@.current_id }),
                    },
                ),
            ),
    {
        let current = self.current_id;
        self.add(HIR::wbr(current, level))
    }

    /// Adds a break that is always taken.
    pub fn br(self) -> (builder: Self)
        ensures
            builder@ == hir_added(
                self@,
                HIR::BreakOpportunity(BreakOpportunity { level: BreakLevel::Unconditional }),
            ),
    {
        self.add(HIR::br())
    }

    /// Adds invisible text that only stands between other text on a line.
    pub fn space(self, text: &str) -> (builder: Self)
        requires
            self@.texts.len() < max_interned(),
        ensures
            text_added(self@, builder@, text@, S::spec_invisible(), TextPlacement::Interior),
    {
        self.styled_at(text, S::invisible(), TextPlacement::Interior)
    }

    /// Adds an indented block: an indentation, a break opportunity at
    /// `level`, the instructions that `ops` adds, and an outdentation.
    pub fn nest<F: FnOnce(Self) -> Self>(self, level: usize, ops: F) -> (builder: Self)
        requires
            forall|b: Self| #[trigger] ops.requires((b,)),
        ensures
            exists|inner: Self, outer: Self|
                #![trigger ops.ensures((inner,), outer)]
                inner@ == hir_added(
                    hir_added(self@, HIR::Indentation(IndentationHIR::Indent)),
                    HIR::BreakOpportunity(
                        BreakOpportunity {
                            level: BreakLevel::Level(NamedBreakLevel { level, id: self@.current_id }),
                        },
                    ),
                ) && ops.ensures((inner,), outer) && builder@ == hir_added(
                    outer@,
                    HIR::Indentation(IndentationHIR::Outdent),
                ),
    {
        let inner = self.indent().wbr(level);
        let ghost inner_view = inner@;
        let outer = ops(inner);
        outer.outdent()
    }

    /// Adds a new group, whose break opportunities `ops` adds.
    pub fn group<F: FnOnce(Self) -> Self>(self, ops: F) -> (builder: Self)
        requires
            forall|b: Self| #[trigger] ops.requires((b,)),
            forall|b: Self, r: Self| #[trigger] ops.ensures((b,), r) ==> r@.id_stack.len() >= b@.id_stack.len(),
        ensures
            exists|id: BreakId, inner: Self, outer: Self|
                #![trigger ops.ensures((inner,), outer), group_started(self@, id)]
                inner@ == group_started(self@, id) && ops.ensures((inner,), outer) && builder@
                    == group_ended(outer@),
    {
        let builder = self.start(BreakId::generate());
        let builder = ops(builder);
        builder.end()
    }

    /// Starts the group `id`.
    pub fn start(self, id: BreakId) -> (builder: Self)
        ensures
            builder@ == group_started(self@, id),
    {
        let mut builder = self;
        let previous = builder.current_id;
        builder.current_id = id;
        builder.id_stack.push(previous);
        builder
    }

    /// Ends the innermost group.
    pub fn end(self) -> (builder: Self)
        requires
            self@.id_stack.len() > 0,
        ensures
            builder@ == group_ended(self@),
    {
        let mut builder = self;
        let last = builder.id_stack.pop().unwrap();
        builder.current_id = last;
        builder
    }

    pub fn indent(self) -> (builder: Self)
        ensures
            builder@ == hir_added(self@, HIR::Indentation(IndentationHIR::Indent)),
    {
        self.add(HIR::Indentation(IndentationHIR::Indent))
    }

    pub fn outdent(self) -> (builder: Self)
        ensures
            builder@ == hir_added(self@, HIR::Indentation(IndentationHIR::Outdent)),
    {
        self.add(HIR::Indentation(IndentationHIR::Outdent))
    }
}

/// The view of a builder of low-level instructions.
pub struct LirBuilderV<S> {
    pub texts: Seq<Seq<char>>,
    pub ops: Seq<LIR<S>>,
}

/// Whether `after` is `before` with `text` interned and added with `style`.
pub open spec fn lir_text_added<S>(before: LirBuilderV<S>, after: LirBuilderV<S>, text: Seq<char>, style: S) -> bool {
    exists|t: Text<S>|
        #![trigger interned(before.texts, after.texts, text, t, style)]
        interned(before.texts, after.texts, text, t, style) && after.ops == before.ops.push(
            LIR::Bounded(t),
        )
}

/// Builds a sequence of low-level instructions, interning its strings into a
/// `Texts`.
pub struct LirBuilder<'texts, S> {
    pub texts: &'texts mut Texts,
    pub ops: Vec<LIR<S>>,
}

impl<'texts, S> View for LirBuilder<'texts, S> {
    type V = LirBuilderV<S>;

    open spec fn view(&self) -> LirBuilderV<S> {
        LirBuilderV { texts: self.texts@, ops: self.ops@ }
    }
}

impl<'texts, S: Style> LirBuilder<'texts, S> {
    /// Runs `build` on a new builder and returns the instructions it added.
    pub fn build<F: FnOnce(LirBuilder<'texts, S>) -> LirBuilder<'texts, S>>(texts: &'texts mut Texts, build: F) -> (ops: Vec<LIR<S>>)
        requires
            forall|b: LirBuilder<'texts, S>| #[trigger] build.requires((b,)),
        ensures
            exists|start: LirBuilder<'texts, S>, end: LirBuilder<'texts, S>|
                #![trigger build.ensures((start,), end)]
                start@ == (LirBuilderV::<S> { texts: old(texts)@, ops: Seq::empty() }) && build.ensures(
                    (start,),
                    end,
                ) && ops@ == end@.ops,
    {
        let builder = LirBuilder::new(texts);
        build(builder).done()
    }

    pub fn new(texts: &'texts mut Texts) -> (builder: LirBuilder<'texts, S>)
        ensures
            builder@ == (LirBuilderV::<S> { texts: old(texts)@, ops: Seq::empty() }),
            *final(builder.texts) == *final(texts),
    {
        let builder = LirBuilder { texts, ops: Vec::new() };
        assert(builder@.ops =~= Seq::<LIR<S>>::empty());
        builder
    }

    pub fn done(self) -> (ops: Vec<LIR<S>>)
        ensures
            ops@ == self@.ops,
    {
        self.ops
    }

    /// Adds text in the normal style.
    pub fn text(self, text: &str) -> (builder: Self)
        requires
            self@.texts.len() < max_interned(),
        ensures
            lir_text_added(self@, builder@, text@, S::spec_normal()),
    {
        self.styled(text, S::normal())
    }

    /// Adds a space: text in the normal style.
    pub fn space(self, text: &str) -> (builder: Self)
        requires
            self@.texts.len() < max_interned(),
        ensures
            lir_text_added(self@, builder@, text@, S::spec_normal()),
    {
        self.text(text)
    }

    /// Adds styled text.
    pub fn styled(self, text: &str, style: S) -> (builder: Self)
        requires
            self@.texts.len() < max_interned(),
        ensures
            lir_text_added(self@, builder@, text@, style),
    {
        let mut builder = self;
        let t = builder.texts.styled(text, style);
        builder.ops.push(LIR::Bounded(t));
        assert(interned(self@.texts, builder@.texts, text@, t, style));
        builder
    }

    /// Adds a line break followed by `indent` levels of indentation.
    pub fn br(self, indent: usize) -> (builder: Self)
        ensures
            builder@ == (LirBuilderV { ops: self@.ops.push(LIR::Break(indent)), ..self@ }),
    {
        let mut builder = self;
        builder.ops.push(LIR::Break(indent));
        builder
    }
}

/// Owns the interned strings of a document while its fragments are built.
pub struct FragmentBuilder<S> {
    pub texts: Texts,
    pub style: std::marker::PhantomData<S>,
}

impl<S: Style> FragmentBuilder<S> {
    pub fn new(texts: Texts) -> (builder: FragmentBuilder<S>)
        ensures
            builder.texts@ == texts@,
    {
        FragmentBuilder { texts, style: std::marker::PhantomData }
    }

    /// Gives back the interned strings.
    pub fn done(self) -> (texts: Texts)
        ensures
            texts@ == self.texts@,
    {
        self.texts
    }
}

} // verus!
