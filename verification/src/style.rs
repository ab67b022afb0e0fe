//! Styles attached to printed text.

use vstd::prelude::*;

verus! {

/// A style that printed text can carry.
pub trait Style: Copy {
    /// The style of text that should not be visible.
    spec fn spec_invisible() -> Self;

    /// The default style of visible text.
    spec fn spec_normal() -> Self;

    /// The style of text that should not be visible (such as spaces that only
    /// separate other text).
    fn invisible() -> (style: Self)
        ensures
            style == Self::spec_invisible(),
    ;

    /// The default style of visible text.
    fn normal() -> (style: Self)
        ensures
            style == Self::spec_normal(),
    ;
}

/// The style that carries no information at all.
#[derive(Clone, Copy, Debug, Default, PartialEq, Eq, Hash, Structural)]
pub struct PlainStyle;

impl Style for PlainStyle {
    open spec fn spec_invisible() -> Self {
        PlainStyle
    }

    open spec fn spec_normal() -> Self {
        PlainStyle
    }

    fn invisible() -> (style: Self) {
        PlainStyle
    }

    fn normal() -> (style: Self) {
        PlainStyle
    }
}

/// A terminal color that every platform can show.
#[derive(Clone, Copy, Debug, PartialEq, Eq, Hash, Structural)]
pub enum PortableColor {
    Black,
    /// "bright white"
    White,
    DarkRed,
    DarkGreen,
    DarkYellow,
    DarkBlue,
    DarkMagenta,
    DarkCyan,
    /// "bright black"
    DarkGray,
    /// "white"
    LightGrey,
    LightRed,
    LightGreen,
    LightYellow,
    LightBlue,
    LightMagenta,
    LightCyan,
}

/// A foreground color, a background color and a hint that text should be bold.
#[derive(Clone, Copy, Debug, Default, PartialEq, Eq, Hash, Structural)]
pub struct PortableStyle {
    pub fg: Option<PortableColor>,
    pub bg: Option<PortableColor>,
    pub bold_hint: bool,
}

/// A terminal command that sets a color.
#[derive(Clone, Copy, Debug, PartialEq, Eq, Hash, Structural)]
pub enum StyleCommand {
    SetForeground(PortableColor),
    SetBackground(PortableColor),
}

/// The commands that put a terminal into a style: the foreground color if
/// the style has one, then the background color if it has one.
pub open spec fn style_commands(style: PortableStyle) -> Seq<StyleCommand> {
    let fg = match style.fg {
        Some(c) => seq![StyleCommand::SetForeground(c)],
        None => Seq::empty(),
    };
    let bg = match style.bg {
        Some(c) => seq![StyleCommand::SetBackground(c)],
        None => Seq::empty(),
    };
    fg + bg
}

impl PortableStyle {
    /// The commands that put a terminal into this style.
    pub fn apply_style(self) -> (commands: Vec<StyleCommand>)
        ensures
            commands@ == style_commands(self),
    {
        let mut commands: Vec<StyleCommand> = Vec::new();
        if let Some(fg) = self.fg {
            commands.push(StyleCommand::SetForeground(fg));
        }
        if let Some(bg) = self.bg {
            commands.push(StyleCommand::SetBackground(bg));
        }
        assert(commands@ =~= style_commands(self));
        commands
    }
}

impl Style for PortableStyle {
    open spec fn spec_invisible() -> Self {
        PortableStyle { fg: None, bg: None, bold_hint: false }
    }

    open spec fn spec_normal() -> Self {
        PortableStyle { fg: None, bg: None, bold_hint: false }
    }

    fn invisible() -> (style: Self) {
        PortableStyle::normal()
    }

    fn normal() -> (style: Self) {
        PortableStyle { fg: None, bg: None, bold_hint: false }
    }
}

/// The indentation that follows a line break: `size` copies of `chars`.
pub struct Indent<'chars> {
    pub size: usize,
    pub chars: &'chars str,
}

/// Why printing failed.
#[derive(Clone, Debug, PartialEq, Eq, Hash)]
pub struct PrintError {
    pub message: String,
}

/// One call made on a `Print` destination.
pub enum Emitted<S> {
    /// `emit_text` with this text and style.
    Text(Seq<char>, S),
    /// `emit_break` with an indentation of this size made of these characters.
    Break(usize, Seq<char>),
}

/// A destination for printed text, such as a terminal. Implementations say
/// whether each call succeeds; what every implementation keeps is the record
/// of the calls it was handed and what each call returned.
pub trait Print {
    type Style: Style;

    /// Every call handed to this destination so far, in order, each with the
    /// result it returned. This is a record for specifications only: a
    /// destination written outside Verus keeps the default body, which no
    /// proof here reads, since every proof of this crate speaks of a
    /// destination through this trait alone.
    closed spec fn emitted(&self) -> Seq<(Emitted<Self::Style>, Result<(), PrintError>)> {
        Seq::empty()
    }

    /// Prints `text` in `style`.
    fn emit_text(&mut self, text: &str, style: Self::Style) -> (result: Result<(), PrintError>)
        ensures
            final(self).emitted() == old(self).emitted().push((Emitted::Text(text@, style), result)),
    ;

    /// Ends the line and prints the indentation of the next one.
    fn emit_break(&mut self, indent: Indent<'_>) -> (result: Result<(), PrintError>)
        ensures
            final(self).emitted() == old(self).emitted().push(
                (Emitted::Break(indent.size, indent.chars@), result),
            ),
    ;
}

} // verus!
