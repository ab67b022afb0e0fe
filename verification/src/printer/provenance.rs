//! Layout only places texts of its input.

use vstd::prelude::*;

use crate::printer::config::PrintConfig;
use crate::printer::hir::HIR;
use crate::printer::line::{
    apply_indentation, line_lir, spec_flush_exterior, spec_process, LineBufferV, LineV, ProcessOp,
};
use crate::printer::lines::{
    lines_lir, spec_lines_flush, spec_lines_process, spec_rewind, spec_run, spec_run_start,
    spec_tick, spec_to_lines, lays_out, run_fuel, HandleOp, LinesBufferV, ProcessResultV, RunV,
    spec_handle_op,
};
use crate::printer::lir::LIR;
use crate::printer::process::{
    indentation_ops, interior_texts, spec_do_next, InitializeBuffer, NextStage, SpeculativeHIR,
};
use crate::printer::text::Text;

verus! {

/// Whether `t` is the text of the instruction `op`.
pub open spec fn text_of<S>(t: Text<S>, op: HIR<S>) -> bool {
    op matches HIR::Bounded(th) && th.text == t
}

/// Whether `t` is the text of one of the instructions `ops`.
pub open spec fn is_input_text<S>(ops: Seq<HIR<S>>, t: Text<S>) -> bool {
    exists|i: int| 0 <= i < ops.len() && text_of(t, #[trigger] ops[i])
}

/// Whether every text of `ts` is a text of `ops`.
pub open spec fn texts_within<S>(ts: Seq<Text<S>>, ops: Seq<HIR<S>>) -> bool {
    forall|k: int| 0 <= k < ts.len() ==> is_input_text(ops, #[trigger] ts[k])
}

/// Whether every text that a line buffer holds is a text of `ops`.
pub open spec fn buffer_within<S>(b: LineBufferV<S>, ops: Seq<HIR<S>>) -> bool {
    &&& texts_within(b.lir, ops)
    &&& (b.exterior matches Some(t) ==> is_input_text(ops, t))
    &&& forall|k: int|
        0 <= k < b.pending.len() ==> (#[trigger] b.pending[k] matches SpeculativeHIR::Interior(t)
            ==> is_input_text(ops, t))
}

/// Whether every text of some lines is a text of `ops`.
pub open spec fn lines_within<S>(lines: Seq<LineV<S>>, ops: Seq<HIR<S>>) -> bool {
    forall|j: int| 0 <= j < lines.len() ==> texts_within(#[trigger] lines[j].lir, ops)
}

/// Whether every text of a layout run's lines and line buffer is a text of
/// `ops`.
pub open spec fn run_within<S>(st: RunV<S>, ops: Seq<HIR<S>>) -> bool {
    lines_within(st.buffer.lines, ops) && buffer_within(st.buffer.current, ops)
}

/// Whether every text in the decision `n` is the text of `op`.
pub open spec fn decision_texts_from<S>(n: NextStage<S>, op: HIR<S>) -> bool {
    match n {
        NextStage::Buffer { consume, .. } => consume matches SpeculativeHIR::Interior(t) ==> text_of(t, op),
        NextStage::InitializeBuffer { initialize, .. } => match initialize {
            InitializeBuffer::Exterior(t) => text_of(t, op),
            InitializeBuffer::Interior(t) => text_of(t, op),
        },
        NextStage::Consume { consume } => text_of(consume, op),
        NextStage::FlushLine(f) => f.then_consume matches Some(t) ==> text_of(t, op),
        NextStage::FlushExteriorAndLine(f) => f.then_consume matches Some(t) ==> text_of(t, op),
        NextStage::PeekedExterior { exterior, .. } => text_of(exterior, op),
        NextStage::PeekedAnywhere { consume, .. } => text_of(consume, op),
        NextStage::TransitionTo { then_consume, .. } => then_consume matches Some(t) ==> text_of(t, op),
        _ => true,
    }
}

/// Every text that a decision names is the text of the instruction decided
/// on.
pub proof fn lemma_decision_texts<S>(stage: crate::printer::process::LineStage, op: HIR<S>)
    requires
        spec_do_next(stage, op) is Some,
    ensures
        decision_texts_from(spec_do_next(stage, op).unwrap(), op),
{
}

pub proof fn lemma_interior_texts_within<S>(pending: Seq<SpeculativeHIR<S>>, ops: Seq<HIR<S>>)
    requires
        forall|k: int|
            0 <= k < pending.len() ==> (#[trigger] pending[k] matches SpeculativeHIR::Interior(t)
                ==> is_input_text(ops, t)),
    ensures
        texts_within(interior_texts(pending), ops),
    decreases pending.len(),
{
    if pending.len() > 0 {
        let rest = pending.drop_last();
        assert forall|k: int| 0 <= k < rest.len() implies (#[trigger] rest[k] matches SpeculativeHIR::Interior(t)
            ==> is_input_text(ops, t)) by {
            assert(rest[k] == pending[k]);
        }
        lemma_interior_texts_within(rest, ops);
        assert(pending.last() == pending[pending.len() - 1]);
    }
}

/// Processing an instruction of `ops` keeps every text of a line buffer a
/// text of `ops`, and a line it ends hands on only such a text.
pub proof fn lemma_process_within<S>(b: LineBufferV<S>, op: HIR<S>, ops: Seq<HIR<S>>)
    requires
        buffer_within(b, ops),
        forall|t: Text<S>| text_of(t, op) ==> is_input_text(ops, t),
        spec_process(b, op) is Some,
    ensures
        buffer_within(spec_process(b, op).unwrap().0, ops),
        spec_process(b, op).unwrap().1 matches ProcessOp::Flush(f) ==> (f.then_consume matches Some(t)
            ==> is_input_text(ops, t)),
{
    lemma_decision_texts(b.stage, op);
    let n = spec_do_next(b.stage, op).unwrap();
    let b2 = spec_process(b, op).unwrap().0;
    lemma_interior_texts_within(b.pending, ops);
    match n {
        NextStage::Buffer { next, consume } => {
            assert forall|k: int| 0 <= k < b2.pending.len() implies (#[trigger] b2.pending[k] matches SpeculativeHIR::Interior(t)
                ==> is_input_text(ops, t)) by {
                if k < b.pending.len() {
                    assert(b2.pending[k] == b.pending[k]);
                }
            }
        },
        NextStage::InitializeBuffer { next, initialize } => {
            assert forall|k: int| 0 <= k < b2.pending.len() implies (#[trigger] b2.pending[k] matches SpeculativeHIR::Interior(t)
                ==> is_input_text(ops, t)) by {
                if k < b.pending.len() {
                    assert(b2.pending[k] == b.pending[k]);
                }
            }
        },
        NextStage::Consume { consume } => {
            assert forall|k: int| 0 <= k < b2.lir.len() implies is_input_text(ops, #[trigger] b2.lir[k]) by {
                if k < b.lir.len() {
                    assert(b2.lir[k] == b.lir[k]);
                }
            }
        },
        NextStage::FlushExteriorAndLine(f) => {
            assert forall|k: int| 0 <= k < b2.lir.len() implies is_input_text(ops, #[trigger] b2.lir[k]) by {
                if k < b.lir.len() {
                    assert(b2.lir[k] == b.lir[k]);
                }
            }
        },
        NextStage::FlushExterior { next } => {
            assert forall|k: int| 0 <= k < b2.lir.len() implies is_input_text(ops, #[trigger] b2.lir[k]) by {
                if k < b.lir.len() {
                    assert(b2.lir[k] == b.lir[k]);
                }
            }
        },
        NextStage::PeekedExterior { next, exterior } => {
            let inner = interior_texts(b.pending);
            assert forall|k: int| 0 <= k < b2.lir.len() implies is_input_text(ops, #[trigger] b2.lir[k]) by {
                if k < b.lir.len() {
                    assert(b2.lir[k] == b.lir[k]);
                } else {
                    assert(b2.lir[k] == inner[k - b.lir.len()]);
                }
            }
        },
        NextStage::PeekedAnywhere { next, consume } => {
            let inner = interior_texts(b.pending);
            assert forall|k: int| 0 <= k < b2.lir.len() implies is_input_text(ops, #[trigger] b2.lir[k]) by {
                if k < b.lir.len() {
                    assert(b2.lir[k] == b.lir[k]);
                } else if k < b.lir.len() + inner.len() {
                    assert(b2.lir[k] == inner[k - b.lir.len()]);
                }
            }
        },
        NextStage::TransitionTo { next, then_consume } => {
            assert forall|k: int| 0 <= k < b2.lir.len() implies is_input_text(ops, #[trigger] b2.lir[k]) by {
                if k < b.lir.len() {
                    assert(b2.lir[k] == b.lir[k]);
                }
            }
        },
        _ => {},
    }
}

/// Every step of a layout run keeps every text of its lines and line buffer
/// a text of the input.
pub proof fn lemma_tick_within<S>(ops: Seq<HIR<S>>, st: RunV<S>)
    requires
        st.next < ops.len(),
        run_within(st, ops),
        spec_tick(ops, st) is Some,
    ensures
        run_within(spec_tick(ops, st).unwrap(), ops),
{
    let s = st.buffer;
    let op = ops[st.next as int];
    assert forall|t: Text<S>| text_of(t, op) implies is_input_text(ops, t) by {
        assert(text_of(t, ops[st.next as int]));
    }
    let after = spec_tick(ops, st).unwrap();
    match spec_handle_op(s.decisions.taken, op) {
        HandleOp::Process(op2) => {
            lemma_process_within(s.current, op2, ops);
            let (current, result) = spec_process(s.current, op2).unwrap();
            match result {
                ProcessOp::Flush(flush) => {
                    let s1 = crate::printer::lines::with_current(s, current);
                    let (s2, r) = spec_lines_flush(s1, flush, st.next as usize).unwrap();
                    assert(buffer_within(s2.current, ops));
                    match r {
                        ProcessResultV::Success(line) => {
                            assert(line.lir == current.lir);
                            assert forall|j: int| 0 <= j < after.buffer.lines.len() implies texts_within(
                                #[trigger] after.buffer.lines[j].lir,
                                ops,
                            ) by {
                                if j < s.lines.len() {
                                    assert(after.buffer.lines[j] == s.lines[j]);
                                }
                            }
                        },
                        ProcessResultV::Rewind(line) => {
                            let r2 = spec_rewind(s2, line);
                            assert forall|j: int| 0 <= j < r2.lines.len() implies texts_within(
                                #[trigger] r2.lines[j].lir,
                                ops,
                            ) by {
                                assert(r2.lines[j] == s.lines[j]);
                            }
                        },
                        _ => {},
                    }
                },
                _ => {},
            }
        },
        HandleOp::Skip(_) => {},
    }
}

/// The lines that a layout run ends with hold only texts of the input.
pub proof fn lemma_run_within<S>(ops: Seq<HIR<S>>, st: RunV<S>, fuel: nat)
    requires
        run_within(st, ops),
        spec_run(ops, st, fuel) is Some,
    ensures
        lines_within(spec_run(ops, st, fuel).unwrap(), ops),
    decreases fuel,
{
    if st.next < ops.len() {
        lemma_tick_within(ops, st);
        lemma_run_within(ops, spec_tick(ops, st).unwrap(), (fuel - 1) as nat);
    }
}

/// The texts of the low-level instructions of some lines are texts of `ops`
/// where the lines' texts are.
pub proof fn lemma_lines_lir_within<S>(lines: Seq<LineV<S>>, ops: Seq<HIR<S>>)
    requires
        lines_within(lines, ops),
    ensures
        forall|i: int|
            0 <= i < lines_lir(lines).len() ==> (#[trigger] lines_lir(lines)[i] matches LIR::Bounded(t)
                ==> is_input_text(ops, t)),
    decreases lines.len(),
{
    if lines.len() > 0 {
        let rest = lines.drop_last();
        assert forall|j: int| 0 <= j < rest.len() implies texts_within(#[trigger] rest[j].lir, ops) by {
            assert(rest[j] == lines[j]);
        }
        lemma_lines_lir_within(rest, ops);
        let last = lines.last();
        assert(texts_within(lines[lines.len() - 1].lir, ops));
        let head = lines_lir(rest);
        let tail = line_lir(last);
        assert forall|i: int| 0 <= i < lines_lir(lines).len() implies (#[trigger] lines_lir(lines)[i] matches LIR::Bounded(t)
            ==> is_input_text(ops, t)) by {
            if i < head.len() {
                assert(lines_lir(lines)[i] == head[i]);
            } else {
                let k = i - head.len();
                assert(lines_lir(lines)[i] == tail[k]);
                if k < last.lir.len() {
                    assert(tail[k] == LIR::Bounded(last.lir[k]));
                }
            }
        }
    }
}

/// Layout places only texts of its input: every text of its low-level
/// instructions is the text of one of the instructions laid out.
pub proof fn lemma_layout_texts_from_input<S>(config: PrintConfig, ops: Seq<HIR<S>>)
    requires
        lays_out(config, ops),
    ensures
        forall|i: int|
            0 <= i < lines_lir(spec_to_lines(config, ops)).len() ==> (#[trigger] lines_lir(
                spec_to_lines(config, ops),
            )[i] matches LIR::Bounded(t) ==> is_input_text(ops, t)),
{
    let st = spec_run_start::<S>(config);
    assert(run_within(st, ops));
    lemma_run_within(ops, st, run_fuel(config, ops));
    lemma_lines_lir_within(spec_to_lines(config, ops), ops);
}

} // verus!
