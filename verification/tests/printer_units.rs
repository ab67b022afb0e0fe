use wyst::printer::builder::{FragmentBuilder, HirBuilder};
use wyst::printer::config::{Nesting, PrintConfig, PrinterConfig};
use wyst::printer::hir::{BreakId, BreakLevel, IndentationHIR, NamedBreakLevel, TextHIR, TextPlacement, HIR};
use wyst::printer::line::RewindableLine;
use wyst::printer::lines::{layout, to_lines, BreakDecisions, HandleOp, RewindState, SkippedBreaks};
use wyst::printer::lir::{measure_lir, LIR};
use wyst::printer::process::{InitializeBuffer, LineStage, NextStage, SpeculativeBuffer, SpeculativeHIR};
use wyst::printer::range::{RangeBound, WystRange};
use wyst::printer::text::{Text, Texts};
use wyst::style::{PlainStyle, PortableColor, PortableStyle, Style, StyleCommand};

#[test]
fn range_bounds_resolve() {
    assert_eq!(RangeBound::Included(3usize).resolve_start(0), 3);
    assert_eq!(RangeBound::Excluded(3usize).resolve_start(0), 4);
    assert_eq!(RangeBound::<usize>::Unbounded.resolve_start(9), 9);
    assert_eq!(RangeBound::Included(3usize).resolve_end(0), 4);
    assert_eq!(RangeBound::Excluded(3usize).resolve_end(0), 3);
    assert_eq!(RangeBound::<usize>::Unbounded.resolve_end(9), 9);
}

#[test]
fn wyst_range_resolve() {
    let r = WystRange { start: RangeBound::Unbounded, end: RangeBound::Unbounded };
    let resolved = r.resolve(10);
    assert_eq!((resolved.start, resolved.end), (0, 10));
    let r = WystRange { start: RangeBound::Excluded(1usize), end: RangeBound::Included(4) };
    let resolved = r.resolve(10);
    assert_eq!((resolved.start, resolved.end), (2, 5));
    let r: WystRange<usize> = WystRange::from(2..7);
    assert_eq!(r.resolve(10).into_range(), 2..7);
}

#[test]
fn measure_lir_widest_line() {
    let mut texts = Texts::new();
    let a = texts.styled("abc", PlainStyle);
    let b = texts.styled("defgh", PlainStyle);
    let ops = vec![LIR::Bounded(a), LIR::Break(2), LIR::Bounded(b), LIR::Break(0), LIR::Bounded(a)];
    // lines: "abc" (3), two levels of 2 + "defgh" (9), "abc" (3)
    assert_eq!(measure_lir(&ops, 2), 9);
    assert_eq!(measure_lir::<PlainStyle>(&[], 2), 0);
    // an indented last line counts too
    let ops = vec![LIR::Bounded(a), LIR::Break(5)];
    assert_eq!(measure_lir(&ops, 2), 10);
}

#[test]
fn texts_intern_is_idempotent() {
    let mut texts = Texts::new();
    let k1 = texts.intern("hello");
    let k2 = texts.intern("world");
    let k3 = texts.intern("hello");
    assert_eq!(k1, k3);
    assert_ne!(k1, k2);
    let resolver = texts.resolver();
    assert_eq!(resolver.resolve(k1), "hello");
    assert_eq!(resolver.resolve(k2), "world");
}

#[test]
fn texts_styled_and_read() {
    let mut texts = Texts::default();
    let t: Text<PlainStyle> = texts.styled("héllo", PlainStyle);
    assert_eq!(t.len(), 6);
    assert!(t.fits(6));
    assert!(!t.fits(5));
    let read = texts.read();
    let resolver = wyst::printer::text::ResolveTexts::Readonly(&read);
    assert_eq!(t.resolve(&resolver), "héllo");
}

#[test]
fn indentation_apply() {
    assert_eq!(IndentationHIR::Indent.apply(2), 3);
    assert_eq!(IndentationHIR::Outdent.apply(2), 1);
    assert_eq!(IndentationHIR::Outdent.apply(IndentationHIR::Indent.apply(7)), 7);
    assert_eq!(IndentationHIR::Indent.name(), "Indent");
    assert_eq!(IndentationHIR::Outdent.name(), "Outdent");
}

#[test]
fn line_stage_indentation() {
    let s = LineStage::Interior { indent: 1 };
    assert_eq!(s.indent(), LineStage::Interior { indent: 2 });
    assert_eq!(s.outdent(), LineStage::Interior { indent: 0 });
    assert_eq!(s.indent().outdent(), s);
    assert_eq!(s.indent_level(), 1);
    assert_eq!(LineStage::EOF.indent_level(), 0);
    assert_eq!(LineStage::EOF.indent(), LineStage::EOF);
}

#[test]
fn implies_skip_rules() {
    let id = BreakId::Id(7);
    let other = BreakId::Id(8);
    let l1 = NamedBreakLevel { level: 1, id };
    assert!(l1.implies_skip(BreakLevel::Level(l1)));
    assert!(l1.implies_skip(BreakLevel::Level(NamedBreakLevel { level: 2, id })));
    assert!(!l1.implies_skip(BreakLevel::Level(NamedBreakLevel { level: 0, id })));
    assert!(!l1.implies_skip(BreakLevel::Level(NamedBreakLevel { level: 1, id: other })));
    assert!(!l1.implies_skip(BreakLevel::Unconditional));
}

#[test]
fn rewindable_lines() {
    let first = RewindableLine::first();
    assert_eq!(first.line_start_stage(), LineStage::Start { indent: 0 });
    let next = first.next_lineno(4, 2);
    assert_eq!(next, RewindableLine { lineno: 1, hir_offset: 4, pre_indent: 2 });
    assert_eq!(next.line_start_stage(), LineStage::Indentation { indent: 2 });
}

#[test]
fn break_id_label_is_blake3_prefix() {
    let id = BreakId::default();
    let expected = blake3::hash(&[0u8; 16]).to_hex().to_string();
    assert_eq!(id.label(), expected[..7].to_string());
    let id = BreakId::Id(1);
    let mut bytes = [0u8; 16];
    bytes[15] = 1;
    let expected = blake3::hash(&bytes).to_hex().to_string();
    assert_eq!(id.label(), expected[..7].to_string());
    assert_eq!(id.label().len(), 7);
}

#[test]
fn break_ids_generated_differ() {
    let a = BreakId::generate();
    let b = BreakId::generate();
    assert_ne!(a, b);
    assert_ne!(a, BreakId::default());
    let v = match a { BreakId::Id(v) => v, BreakId::Named(_) => panic!("a generated id is random") };
    assert_eq!(v & 0xF000_C000_0000_0000_0000u128, 0x4000_8000_0000_0000_0000u128);
}

#[test]
fn configs() {
    let c = PrintConfig::from(40usize);
    assert_eq!(c.page_width, 40);
    assert_eq!(c.indent_width(3), 6);
    let c = PrintConfig::new(10, "\t");
    assert_eq!(c.indent_width(3), 3);
    let p = PrinterConfig::default();
    assert_eq!(p.page_width, 80);
    assert_eq!(p.nest, "  ");
    assert_eq!(PrinterConfig::from(12usize).page_width, 12);
    assert_eq!(Nesting::default().level, 0);
    assert_eq!(Nesting::from(3usize).level, 3);
}

#[test]
fn portable_style_commands() {
    let plain = PortableStyle::normal();
    assert_eq!(plain.apply_style(), vec![]);
    let colored = PortableStyle { fg: Some(PortableColor::DarkRed), bg: Some(PortableColor::LightCyan), bold_hint: false };
    assert_eq!(
        colored.apply_style(),
        vec![StyleCommand::SetForeground(PortableColor::DarkRed), StyleCommand::SetBackground(PortableColor::LightCyan)]
    );
    let bg_only = PortableStyle { fg: None, bg: Some(PortableColor::Black), bold_hint: true };
    assert_eq!(bg_only.apply_style(), vec![StyleCommand::SetBackground(PortableColor::Black)]);
    assert_eq!(PortableStyle::invisible(), PortableStyle::normal());
    assert_eq!(PlainStyle::normal(), PlainStyle);
}

#[test]
fn hir_builder_ends_with_eof() {
    let mut texts = Texts::new();
    let atomic = HirBuilder::<PlainStyle>::new(&mut texts).text("a").br().done();
    assert_eq!(atomic.len(), 3);
    assert_eq!(atomic.index(2), HIR::EOF);
    assert!(matches!(atomic.index(0), HIR::Bounded(_)));
    assert_eq!(HIR::<PlainStyle>::br().name(), "br");
    assert_eq!(HIR::<PlainStyle>::wbr(BreakId::Id(1), 0).name(), "wbr");
}

#[test]
fn text_placement_and_space() {
    let mut texts = Texts::new();
    let atomic = HirBuilder::<PlainStyle>::new(&mut texts)
        .text_at("x", TextPlacement::Exterior)
        .space(" ")
        .done();
    match atomic.index(0) {
        HIR::Bounded(t) => assert_eq!(t.placement, TextPlacement::Exterior),
        _ => panic!("expected text"),
    }
    match atomic.index(1) {
        HIR::Bounded(t) => assert_eq!(t.placement, TextPlacement::Interior),
        _ => panic!("expected text"),
    }
}

#[test]
fn exterior_text_is_dropped_before_more_text_on_the_line() {
    // An exterior text that more text follows on the same line is not printed.
    let mut texts = Texts::new();
    let atomic = HirBuilder::<PlainStyle>::new(&mut texts)
        .text("a")
        .text_at(",", TextPlacement::Exterior)
        .text("b")
        .done();
    let lir = layout(atomic, PrintConfig::from(80usize));
    assert_eq!(lir.len(), 3);
    assert!(matches!(lir[2], LIR::Break(0)));
}

#[test]
fn exterior_text_is_kept_at_a_line_end() {
    let mut texts = Texts::new();
    let atomic = HirBuilder::<PlainStyle>::new(&mut texts)
        .text("a")
        .text_at(",", TextPlacement::Exterior)
        .br()
        .text("b")
        .done();
    let lir = layout(atomic, PrintConfig::from(80usize));
    // "a" "," break "b" break
    assert_eq!(lir.len(), 5);
    assert!(matches!(lir[2], LIR::Break(0)));
}

#[test]
fn to_lines_keeps_overflowing_line_without_breaks() {
    let mut texts = Texts::new();
    let atomic = HirBuilder::<PlainStyle>::new(&mut texts).text("hello").done();
    let lines = to_lines(PrintConfig::from(2usize), &atomic.children);
    assert_eq!(lines.lines.len(), 1);
    assert_eq!(lines.lines[0].lir.len(), 1);
}

#[test]
fn fragment_builder_returns_texts() {
    let mut texts = Texts::new();
    let key = texts.intern("kept");
    let builder = FragmentBuilder::<PlainStyle>::new(texts);
    let texts = builder.done();
    assert_eq!(texts.resolver().resolve(key), "kept");
}

#[test]
fn break_decisions_handle_and_rewind() {
    let id = BreakId::Id(3);
    let mut decisions = BreakDecisions::empty();
    let wbr1: HIR<PlainStyle> = HIR::wbr(id, 1);
    let wbr3: HIR<PlainStyle> = HIR::wbr(id, 3);
    assert_eq!(decisions.handle_op(HIR::<PlainStyle>::br()), HandleOp::Process(HIR::br()));
    assert_eq!(decisions.handle_op(wbr1), HandleOp::Skip(NamedBreakLevel { level: 1, id }));

    let line = RewindableLine::first();
    let state = RewindState { named_level: NamedBreakLevel { level: 1, id }, line };
    decisions.skip(state);
    // skipping the same break again keeps the first record
    decisions.skip(RewindState { named_level: NamedBreakLevel { level: 1, id }, line: line.next_lineno(9, 0) });
    assert_eq!(decisions.rewind_for(Some(NamedBreakLevel { level: 1, id })), Some(state));

    // the break is now taken at level 1: level 1 is laid out, level 3 still skipped
    assert_eq!(decisions.handle_op(wbr1), HandleOp::Process(wbr1));
    assert_eq!(decisions.handle_op(wbr3), HandleOp::Skip(NamedBreakLevel { level: 3, id }));
    // nothing is left to take
    assert_eq!(decisions.rewind_for(None), None);
}

#[test]
fn take_next_takes_lowest_level() {
    let line = RewindableLine::first();
    let a = RewindState { named_level: NamedBreakLevel { level: 4, id: BreakId::Id(1) }, line };
    let b = RewindState { named_level: NamedBreakLevel { level: 2, id: BreakId::Id(2) }, line };
    let mut skipped = SkippedBreaks::empty();
    skipped.skip(a);
    skipped.skip(b);
    assert_eq!(skipped.take_next(), Some(b));
    // the lowest level has no entry left, so the next level's break is taken
    assert_eq!(skipped.take_next(), Some(a));
    // nothing is left
    assert_eq!(skipped.take_next(), None);
}

#[test]
fn line_stage_decisions() {
    let mut texts = Texts::new();
    let t: Text<PlainStyle> = texts.styled("x", PlainStyle);
    let interior = HIR::Bounded(TextHIR { placement: TextPlacement::Interior, text: t });
    let anywhere = HIR::Bounded(TextHIR { placement: TextPlacement::Anywhere, text: t });
    // interior text at the start of a line is ignored
    assert_eq!(LineStage::Start { indent: 0 }.do_next(interior), NextStage::Ignore);
    // text anywhere in the interior of a line is consumed
    assert_eq!(LineStage::Interior { indent: 0 }.do_next(anywhere), NextStage::Consume { consume: t });
    // after the end of the input there is nothing left to do
    assert_eq!(LineStage::EOF.do_next(anywhere), NextStage::EOF);
}

#[test]
fn speculative_buffer_default_and_flushes() {
    let mut buffer: SpeculativeBuffer<PlainStyle> = SpeculativeBuffer::default();
    assert!(buffer.exterior_op.is_none());
    assert!(buffer.buffer.is_empty());
    let exterior = Text::new(0, 1, PlainStyle::normal());
    let interior = Text::new(1, 2, PlainStyle::normal());
    buffer.initialize(InitializeBuffer::Exterior(exterior));
    buffer.push(SpeculativeHIR::Interior(interior));
    buffer.push(SpeculativeHIR::Indentation(IndentationHIR::Indent));
    let (text, indents) = buffer.flush_exterior();
    assert_eq!(text, Some(exterior));
    assert_eq!(indents, vec![IndentationHIR::Indent]);
    assert!(buffer.exterior_op.is_none());
    assert!(buffer.buffer.is_empty());
    buffer.initialize(InitializeBuffer::Exterior(exterior));
    buffer.push(SpeculativeHIR::Interior(interior));
    buffer.push(SpeculativeHIR::Indentation(IndentationHIR::Outdent));
    assert_eq!(buffer.flush_interior(), vec![interior]);
    assert!(buffer.exterior_op.is_none());
    assert!(buffer.buffer.is_empty());
}

#[test]
fn std_ranges_convert() {
    let resolve = |r: WystRange<usize>| {
        let resolved = r.resolve(10);
        (resolved.start, resolved.end)
    };
    assert_eq!(resolve(WystRange::from(2..5)), (2, 5));
    assert_eq!(resolve(WystRange::from(2..=5)), (2, 6));
    assert_eq!(resolve(WystRange::from(2..)), (2, 10));
    assert_eq!(resolve(WystRange::from(..5)), (0, 5));
    assert_eq!(resolve(WystRange::from(..=5)), (0, 6));
    assert_eq!(resolve(WystRange::from(..)), (0, 10));
    assert_eq!(RangeBound::from(std::ops::Bound::Included(3usize)), RangeBound::Included(3));
    assert_eq!(RangeBound::from(std::ops::Bound::Excluded(&3usize)), RangeBound::Excluded(3));
    assert_eq!(RangeBound::from(std::ops::Bound::<usize>::Unbounded), RangeBound::Unbounded);
}

#[test]
fn interners_count_their_strings() {
    let mut texts = Texts::new();
    let a: Text<PlainStyle> = texts.styled("a", PlainStyle);
    let _b: Text<PlainStyle> = texts.styled("b", PlainStyle);
    let _again: Text<PlainStyle> = texts.styled("a", PlainStyle);
    assert_eq!(texts.len(), 2);
    assert!(texts.resolver().can_resolve(a.text));
    assert!(!texts.resolver().can_resolve(2));
    let read = texts.read();
    assert_eq!(read.len(), 2);
}

#[test]
fn named_break_ids() {
    let a = BreakId::Named("outer");
    let b = BreakId::Named("inner");
    assert_eq!(a.label(), "outer".to_string());
    let mut decisions = BreakDecisions::empty();
    decisions.take_break(NamedBreakLevel { level: 1, id: a });
    let wbr_a: HIR<PlainStyle> = HIR::wbr(BreakId::Named("outer"), 1);
    let wbr_b: HIR<PlainStyle> = HIR::wbr(b, 1);
    assert_eq!(decisions.handle_op(wbr_a), HandleOp::Process(wbr_a));
    assert_eq!(decisions.handle_op(wbr_b), HandleOp::Skip(NamedBreakLevel { level: 1, id: b }));
}

#[test]
fn taking_an_older_skip_lowers_the_taken_level() {
    let id = BreakId::Id(5);
    let first = RewindableLine::first();
    let second = first.next_lineno(4, 0);
    let low = RewindState { named_level: NamedBreakLevel { level: 1, id }, line: first };
    let high = RewindState { named_level: NamedBreakLevel { level: 2, id }, line: second };
    let mut decisions = BreakDecisions::empty();
    decisions.skip(low);
    decisions.skip(high);
    // the second line overflows and names its own skipped break
    assert_eq!(decisions.rewind_for(Some(NamedBreakLevel { level: 2, id })), Some(high));
    let wbr2: HIR<PlainStyle> = HIR::wbr(id, 2);
    assert_eq!(decisions.handle_op(wbr2), HandleOp::Process(wbr2));
    // a later overflow names nothing, so the older skip at level 1 is taken,
    // and the group's taken level goes down from 2 to 1
    assert_eq!(decisions.rewind_for(None), Some(low));
    assert_eq!(decisions.handle_op(wbr2), HandleOp::Skip(NamedBreakLevel { level: 2, id }));
}
