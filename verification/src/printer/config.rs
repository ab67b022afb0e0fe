//! Page width and indentation settings.

use vstd::prelude::*;

use crate::source::{chars_width, HasLen};

verus! {

/// The page width and the string that makes up one level of indentation.
#[derive(Clone, Copy, Debug, PartialEq, Eq, Hash)]
pub struct PrintConfig {
    pub page_width: usize,
    pub indent: &'static str,
}

/// The byte width of `n` levels of indentation.
pub open spec fn spec_indent_width(config: PrintConfig, n: int) -> int {
    chars_width(config.indent@) * n
}

pub proof fn lemma_indent_width_nonneg(config: PrintConfig, n: int)
    requires
        n >= 0,
    ensures
        spec_indent_width(config, n) >= 0,
{
    vstd::arithmetic::mul::lemma_mul_nonnegative(chars_width(config.indent@) as int, n);
}

impl PrintConfig {
    pub fn new(page_width: usize, indent: &'static str) -> (config: PrintConfig)
        ensures
            config.page_width == page_width,
            config.indent == indent,
    {
        PrintConfig { page_width, indent }
    }

    /// The byte width of `indent` levels of indentation.
    pub fn indent_width(self, indent: usize) -> (width: usize)
        requires
            spec_indent_width(self, indent as int) <= usize::MAX,
        ensures
            width == spec_indent_width(self, indent as int),
    {
        let unit = self.indent.utf8_len();
        unit * indent
    }
}

/// The page width and nesting string of the printer.
#[derive(Clone, Copy, Debug, PartialEq, Eq, Hash)]
pub struct PrinterConfig {
    pub page_width: usize,
    pub nest: &'static str,
}

/// A config with the given page width, nesting by two spaces.
impl From<usize> for PrinterConfig {
    fn from(page_width: usize) -> (config: PrinterConfig) {
        PrinterConfig { page_width, nest: "  " }
    }
}

impl vstd::std_specs::convert::FromSpecImpl<usize> for PrinterConfig {
    open spec fn obeys_from_spec() -> bool {
        true
    }

    open spec fn from_spec(page_width: usize) -> PrinterConfig {
        PrinterConfig { page_width, nest: "  " }
    }
}

/// A page width of 80, nesting by two spaces.
impl Default for PrinterConfig {
    fn default() -> (config: PrinterConfig)
        ensures
            config.page_width == 80,
            config.nest@ == "  "@,
    {
        PrinterConfig { page_width: 80, nest: "  " }
    }
}

/// A nesting depth.
#[derive(Clone, Copy, Debug, PartialEq, Eq, Hash, Structural)]
pub struct Nesting {
    pub level: usize,
}

impl Default for Nesting {
    fn default() -> (nesting: Nesting)
        ensures
            nesting.level == 0,
    {
        Nesting { level: 0 }
    }
}

impl From<usize> for Nesting {
    fn from(level: usize) -> (nesting: Nesting) {
        Nesting { level }
    }
}

impl vstd::std_specs::convert::FromSpecImpl<usize> for Nesting {
    open spec fn obeys_from_spec() -> bool {
        true
    }

    open spec fn from_spec(level: usize) -> Nesting {
        Nesting { level }
    }
}

/// A config with the given page width and an indentation of two spaces.
impl From<usize> for PrintConfig {
    fn from(page_width: usize) -> (config: PrintConfig) {
        PrintConfig { page_width, indent: "  " }
    }
}

impl vstd::std_specs::convert::FromSpecImpl<usize> for PrintConfig {
    open spec fn obeys_from_spec() -> bool {
        true
    }

    open spec fn from_spec(page_width: usize) -> PrintConfig {
        PrintConfig { page_width, indent: "  " }
    }
}

} // verus!
