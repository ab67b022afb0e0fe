//! The low-level instructions of a layout: text and line breaks.

use vstd::prelude::*;

use crate::printer::text::Text;
use crate::style::Style;

verus! {

/// One low-level instruction.
#[derive(Clone, Copy, Debug, PartialEq, Eq, Hash)]
pub enum LIR<S> {
    Bounded(Text<S>),
    /// A line break followed by the given number of indentation levels.
    Break(usize),
}

/// The widest line so far and the width of the current line, after `ops`,
/// where one level of indentation is `nesting_len` wide.
pub open spec fn measure_state<S>(ops: Seq<LIR<S>>, nesting_len: int) -> (int, int)
    decreases ops.len(),
{
    if ops.len() == 0 {
        (0, 0)
    } else {
        let (max, current) = measure_state(ops.drop_last(), nesting_len);
        match ops.last() {
            LIR::Bounded(t) => (max, current + t.len),
            LIR::Break(indent) => (
                if max >= current {
                    max
                } else {
                    current
                },
                indent * nesting_len,
            ),
        }
    }
}

/// The width of the widest line of `ops`.
pub open spec fn spec_measure<S>(ops: Seq<LIR<S>>, nesting_len: int) -> int {
    let (max, current) = measure_state(ops, nesting_len);
    if max >= current {
        max
    } else {
        current
    }
}

/// Whether every line of `ops`, and each part of it, is at most
/// `usize::MAX` wide.
pub open spec fn measure_fits<S>(ops: Seq<LIR<S>>, nesting_len: int) -> bool {
    forall|i: int| 0 <= i <= ops.len() ==> #[trigger] measure_state(ops.take(i), nesting_len).1 <= usize::MAX
}

pub proof fn lemma_measure_state_bounds<S>(ops: Seq<LIR<S>>, nesting_len: int)
    requires
        nesting_len >= 0,
    ensures
        0 <= measure_state(ops, nesting_len).0,
        0 <= measure_state(ops, nesting_len).1,
    decreases ops.len(),
{
    if ops.len() > 0 {
        lemma_measure_state_bounds(ops.drop_last(), nesting_len);
        match ops.last() {
            LIR::Break(indent) => {
                vstd::arithmetic::mul::lemma_mul_nonnegative(indent as int, nesting_len);
            },
            _ => {},
        }
    }
}

/// No line of `ops`, and no part of a line, is wider than its measure.
pub proof fn lemma_measure_bounds_lines<S>(ops: Seq<LIR<S>>, nesting_len: int, i: int)
    requires
        nesting_len >= 0,
        0 <= i <= ops.len(),
    ensures
        measure_state(ops.take(i), nesting_len).1 <= spec_measure(ops, nesting_len),
        measure_state(ops.take(i), nesting_len).0 <= spec_measure(ops, nesting_len),
    decreases ops.len(),
{
    if i == ops.len() {
        assert(ops.take(i) =~= ops);
    } else {
        let p = ops.drop_last();
        lemma_measure_bounds_lines(p, nesting_len, i);
        assert(p.take(i) =~= ops.take(i));
        lemma_measure_state_bounds(p, nesting_len);
        assert(spec_measure(p, nesting_len) <= spec_measure(ops, nesting_len));
    }
}

/// The width of the widest line of `ops`, where one level of indentation is
/// `nesting_len` wide.
pub fn measure_lir<S: Style>(ops: &[LIR<S>], nesting_len: usize) -> (width: usize)
    requires
        measure_fits(ops@, nesting_len as int),
    ensures
        width == spec_measure(ops@, nesting_len as int),
{
    let mut max_width: usize = 0;
    let mut current_width: usize = 0;
    let mut i: usize = 0;
    while i < ops.len()
        invariant
            i <= ops@.len(),
            measure_fits(ops@, nesting_len as int),
            (max_width as int, current_width as int) == measure_state(ops@.take(i as int), nesting_len as int),
        decreases ops@.len() - i,
    {
        let ghost prefix = ops@.take(i + 1);
        assert(prefix.drop_last() =~= ops@.take(i as int));
        assert(measure_state(ops@.take(i + 1), nesting_len as int).1 <= usize::MAX);
        proof {
            lemma_measure_state_bounds(ops@.take(i as int), nesting_len as int);
        }
        match ops[i] {
            LIR::Bounded(bounded) => {
                current_width = current_width + bounded.len;
            },
            LIR::Break(indent) => {
                if current_width > max_width {
                    max_width = current_width;
                }
                current_width = indent * nesting_len;
            },
        }
        i = i + 1;
    }
    assert(ops@.take(i as int) =~= ops@);
    if current_width > max_width {
        current_width
    } else {
        max_width
    }
}

} // verus!
