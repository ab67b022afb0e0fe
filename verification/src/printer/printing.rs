//! Printing laid-out text.

use vstd::prelude::*;

use crate::printer::config::PrintConfig;
use crate::printer::hir::{Atomic, HIR};
use crate::printer::line::LineV;
use crate::printer::lines::{layout, lays_out, lines_lir, run_fuel, spec_run, spec_run_start, spec_to_lines};
use crate::printer::provenance::{is_input_text, lemma_layout_texts_from_input, text_of};
use crate::printer::lir::LIR;
use crate::printer::text::{max_interned, ResolveTexts};
use crate::style::{Emitted, Indent, Print, PrintError, Style};

verus! {

/// One thing to print: a text in a style, or a line break followed by some
/// indentation.
pub enum PrintOp<'texts, S> {
    Text(&'texts str, S),
    Break(Indent<'static>),
}

/// Whether every text of `lir` can be resolved from `strings`.
pub open spec fn resolvable<S>(lir: Seq<LIR<S>>, strings: Seq<Seq<char>>) -> bool {
    forall|i: int|
        0 <= i < lir.len() ==> match #[trigger] lir[i] {
            LIR::Bounded(t) => t.text < strings.len() && t.text < max_interned(),
            LIR::Break(_) => true,
        }
}

/// Whether every text of the instructions `hir` can be resolved from
/// `strings`.
pub open spec fn hir_resolvable<S>(hir: Seq<HIR<S>>, strings: Seq<Seq<char>>) -> bool {
    forall|i: int|
        0 <= i < hir.len() ==> match #[trigger] hir[i] {
            HIR::Bounded(th) => th.text.text < strings.len() && th.text.text < max_interned(),
            _ => true,
        }
}

/// Whether `op` prints the instruction `lir`.
pub open spec fn prints<S>(op: PrintOp<S>, lir: LIR<S>, strings: Seq<Seq<char>>, config: PrintConfig) -> bool {
    match lir {
        LIR::Bounded(t) => op matches PrintOp::Text(text, style) && text@ == strings[t.text as int]
            && style == t.style,
        LIR::Break(n) => op matches PrintOp::Break(indent) && indent.size == n && indent.chars
            == config.indent,
    }
}

/// The call that printing the instruction `lir` makes on a destination.
pub open spec fn emitted_of<S>(lir: LIR<S>, strings: Seq<Seq<char>>, config: PrintConfig) -> Emitted<S> {
    match lir {
        LIR::Bounded(t) => Emitted::Text(strings[t.text as int], t.style),
        LIR::Break(n) => Emitted::Break(n, config.indent@),
    }
}

/// The calls that printing `lir` makes on a destination, in order, where
/// every call succeeds.
pub open spec fn emitted_all<S>(lir: Seq<LIR<S>>, strings: Seq<Seq<char>>, config: PrintConfig) -> Seq<Emitted<S>> {
    lir.map_values(|l: LIR<S>| emitted_of(l, strings, config))
}

/// What printing `lir` does to a destination whose record of calls was
/// `before` and is `after`, and what it returns: the calls of `lir` are made
/// in order, each but the last made one having succeeded; printing stops at
/// the first call that fails and returns its error, and returns `Ok` only
/// when every call of `lir` was made and succeeded.
pub open spec fn printed_to<S>(
    result: Result<(), PrintError>,
    before: Seq<(Emitted<S>, Result<(), PrintError>)>,
    after: Seq<(Emitted<S>, Result<(), PrintError>)>,
    lir: Seq<LIR<S>>,
    strings: Seq<Seq<char>>,
    config: PrintConfig,
) -> bool {
    let n = before.len();
    let calls = emitted_all(lir, strings, config);
    &&& n <= after.len() <= n + calls.len()
    &&& after.subrange(0, n as int) == before
    &&& forall|i: int| n <= i < after.len() ==> (#[trigger] after[i]).0 == calls[i - n]
    &&& forall|i: int| n <= i < after.len() - 1 ==> (#[trigger] after[i]).1 is Ok
    &&& match result {
        Ok(()) => after.len() == n + calls.len() && (after.len() > n ==> after.last().1 is Ok),
        Err(_) => after.len() > n && after.last().1 == result,
    }
}

/// Prints low-level instructions with a page configuration and the strings
/// of their texts.
pub struct Printer<'texts> {
    pub config: PrintConfig,
    pub resolve: ResolveTexts<'texts>,
}

impl<'texts> Printer<'texts> {
    pub fn new(config: PrintConfig, resolve: ResolveTexts<'texts>) -> (printer: Printer<'texts>)
        ensures
            printer.config == config,
            printer.resolve.strings() == resolve.strings(),
    {
        Printer { config, resolve }
    }

    /// What printing `lir` prints, in order.
    pub fn print_ops<S: Style>(&self, lir: &Vec<LIR<S>>) -> (ops: Vec<PrintOp<'texts, S>>)
        requires
            resolvable(lir@, self.resolve.strings()),
        ensures
            ops@.len() == lir@.len(),
            forall|i: int|
                0 <= i < lir@.len() ==> prints(
                    #[trigger] ops@[i],
                    lir@[i],
                    self.resolve.strings(),
                    self.config,
                ),
    {
        let mut ops: Vec<PrintOp<'texts, S>> = Vec::new();
        let mut i: usize = 0;
        while i < lir.len()
            invariant
                i <= lir@.len(),
                ops@.len() == i,
                resolvable(lir@, self.resolve.strings()),
                forall|j: int|
                    0 <= j < i ==> prints(
                        #[trigger] ops@[j],
                        lir@[j],
                        self.resolve.strings(),
                        self.config,
                    ),
            decreases lir@.len() - i,
        {
            match lir[i] {
                LIR::Bounded(text) => {
                    ops.push(PrintOp::Text(self.resolve.resolve(text.text), text.style));
                },
                LIR::Break(n) => {
                    ops.push(PrintOp::Break(Indent { size: n, chars: self.config.indent }));
                },
            }
            i = i + 1;
        }
        ops
    }

    /// Prints `lir` to `printer`, stopping at the first failure: each
    /// instruction in order becomes one call, a text with its resolved string
    /// and style, a break with its indentation. Whether a call succeeds is up
    /// to `printer`, so success is owed only where nothing is handed over.
    pub fn print_lir<S: Style, P: Print<Style = S>>(&self, lir: Vec<LIR<S>>, printer: &mut P) -> (result: Result<(), PrintError>)
        requires
            resolvable(lir@, self.resolve.strings()),
        ensures
            lir@.len() == 0 ==> result is Ok,
            printed_to(result, old(printer).emitted(), final(printer).emitted(), lir@, self.resolve.strings(), self.config),
    {
        let ghost strings = self.resolve.strings();
        let ghost before = printer.emitted();
        let ghost all = emitted_all(lir@, strings, self.config);
        let ghost n = before.len();
        let ops = self.print_ops(&lir);
        let mut i: usize = 0;
        while i < ops.len()
            invariant
                i <= ops@.len(),
                ops@.len() == lir@.len(),
                all == emitted_all(lir@, strings, self.config),
                all.len() == lir@.len(),
                strings == self.resolve.strings(),
                forall|j: int|
                    0 <= j < lir@.len() ==> prints(#[trigger] ops@[j], lir@[j], strings, self.config),
                before == old(printer).emitted(),
                n == before.len(),
                printer.emitted().len() == n + i,
                printer.emitted().subrange(0, n as int) == before,
                forall|k: int| n <= k < printer.emitted().len() ==> (#[trigger] printer.emitted()[k]).0 == all[k - n],
                forall|k: int| n <= k < printer.emitted().len() ==> (#[trigger] printer.emitted()[k]).1 is Ok,
            decreases ops@.len() - i,
        {
            proof {
                assert(prints(ops@[i as int], lir@[i as int], strings, self.config));
            }
            let ghost prev = printer.emitted();
            let done = match &ops[i] {
                PrintOp::Text(text, style) => printer.emit_text(text, *style),
                PrintOp::Break(indent) => printer.emit_break(Indent { size: indent.size, chars: indent.chars }),
            };
            proof {
                let cur = printer.emitted();
                assert(cur == prev.push((all[i as int], done)));
                assert(cur.subrange(0, n as int) =~= prev.subrange(0, n as int));
                assert forall|k: int| n <= k < cur.len() - 1 implies (#[trigger] cur[k]).1 is Ok by {
                    assert(cur[k] == prev[k]);
                }
                assert forall|k: int| n <= k < cur.len() implies (#[trigger] cur[k]).0 == all[k - n] by {
                    if k < cur.len() - 1 {
                        assert(cur[k] == prev[k]);
                    }
                }
            }
            match done {
                Ok(()) => {},
                Err(e) => {
                    return Err(e);
                },
            }
            i = i + 1;
        }
        Ok(())
    }

    /// Lays out `hir` and prints the low-level instructions of the laid-out
    /// lines to `printer` as `print_lir` does, stopping at the first failure.
    /// Success is owed
    /// where the layout hands `printer` nothing, as for no instructions at all.
    pub fn print<S: Style, P: Print<Style = S>>(&self, hir: Vec<HIR<S>>, printer: &mut P) -> (result: Result<(), PrintError>)
        requires
            lays_out(self.config, hir@),
            hir_resolvable(hir@, self.resolve.strings()),
        ensures
            lines_lir(spec_to_lines(self.config, hir@)).len() == 0 ==> result is Ok,
            hir@.len() == 0 ==> result is Ok,
            printed_to(
                result,
                old(printer).emitted(),
                final(printer).emitted(),
                lines_lir(spec_to_lines(self.config, hir@)),
                self.resolve.strings(),
                self.config,
            ),
    {
        let ghost ops = hir@;
        let lir = layout(Atomic::new(hir), self.config);
        proof {
            if ops.len() == 0 {
                let fuel = run_fuel(self.config, ops);
                assert(spec_run(ops, spec_run_start::<S>(self.config), fuel) == Some(Seq::<LineV<S>>::empty()));
                assert(lines_lir(spec_to_lines(self.config, ops)) == Seq::<LIR<S>>::empty());
            }
            lemma_layout_texts_from_input(self.config, ops);
            assert forall|i: int| 0 <= i < lir@.len() implies match #[trigger] lir@[i] {
                LIR::Bounded(t) => t.text < self.resolve.strings().len() && t.text < max_interned(),
                LIR::Break(_) => true,
            } by {
                if let LIR::Bounded(t) = lir@[i] {
                    assert(is_input_text(ops, t));
                    let j = choose|j: int| 0 <= j < ops.len() && text_of(t, #[trigger] ops[j]);
                    assert(ops[j] matches HIR::Bounded(th) && th.text == t);
                }
            }
        }
        self.print_lir(lir, printer)
    }
}

} // verus!
