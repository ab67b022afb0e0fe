use wyst::printer::builder::{HirBuilder, LirBuilder};
use wyst::printer::config::PrintConfig;
use wyst::printer::hir::Atomic;
use wyst::printer::lines::layout;
use wyst::printer::printing::Printer;
use wyst::printer::text::Texts;
use wyst::style::{Indent, PortableStyle, Print, PrintError};

type H<'t> = HirBuilder<'t, PortableStyle>;
type L<'t> = LirBuilder<'t, PortableStyle>;

/// Prints into a string, as a terminal would show it.
struct StringPrinter {
    out: String,
}

impl Print for StringPrinter {
    type Style = PortableStyle;

    fn emit_text(&mut self, text: &str, _style: PortableStyle) -> Result<(), PrintError> {
        self.out.push_str(text);
        Ok(())
    }

    fn emit_break(&mut self, indent: Indent<'_>) -> Result<(), PrintError> {
        self.out.push('\n');
        for _ in 0..indent.size {
            self.out.push_str(indent.chars);
        }
        Ok(())
    }
}

/// A destination that refuses everything.
struct FailingPrinter {
    calls: usize,
}

impl Print for FailingPrinter {
    type Style = PortableStyle;

    fn emit_text(&mut self, _text: &str, _style: PortableStyle) -> Result<(), PrintError> {
        self.calls += 1;
        Err(PrintError { message: "refused".to_string() })
    }

    fn emit_break(&mut self, _indent: Indent<'_>) -> Result<(), PrintError> {
        self.calls += 1;
        Err(PrintError { message: "refused".to_string() })
    }
}

#[test]
fn printing_nothing_succeeds() {
    let texts = Texts::new();
    let printer = Printer::new(PrintConfig::from(10usize), texts.resolver());
    let mut failing = FailingPrinter { calls: 0 };
    assert!(printer.print_lir(Vec::new(), &mut failing).is_ok());
    assert!(printer.print::<PortableStyle, _>(Vec::new(), &mut failing).is_ok());
    assert_eq!(failing.calls, 0);
}

#[test]
fn printing_stops_at_first_failure() {
    let mut texts = Texts::new();
    let lir = LirBuilder::build(&mut texts, |b: L<'_>| b.br(0).br(0));
    let printer = Printer::new(PrintConfig::from(10usize), texts.resolver());
    let mut failing = FailingPrinter { calls: 0 };
    let result = printer.print_lir(lir, &mut failing);
    assert_eq!(result, Err(PrintError { message: "refused".to_string() }));
    assert_eq!(failing.calls, 1);
}

struct TestMirPass {
    texts: Texts,
    hir: Atomic<PortableStyle>,
}

impl TestMirPass {
    fn case(&mut self, width: usize, expected: impl for<'t> FnOnce(L<'t>) -> L<'t>, output: &str) {
        let config = PrintConfig::from(width);
        let actual_lir = layout(self.hir.clone(), config);
        let expected_lir = LirBuilder::build(&mut self.texts, |b| expected(b).br(0));

        let mut printer = StringPrinter { out: String::new() };
        Printer::new(config, self.texts.resolver())
            .print_lir(actual_lir.clone(), &mut printer)
            .unwrap();

        assert_eq!(printer.out, format!("{}\n", output), "OUT: {}", width);
        assert_eq!(actual_lir, expected_lir, "LIR: {}", width);
    }
}

fn test_passes(hir: impl for<'t> FnOnce(H<'t>) -> H<'t>) -> TestMirPass {
    let mut texts = Texts::new();
    let hir = hir(HirBuilder::new(&mut texts)).done();
    TestMirPass { texts, hir }
}

#[test]
fn test_simple_ir() {
    let mut test = test_passes(|h| h.text("hello"));
    test.case(80, |b| b.text("hello"), "hello");
    test.case(3, |b| b.text("hello"), "hello");
}

#[test]
fn test_bounded_twice() {
    let mut test = test_passes(|h| h.text("hello").text("goodbye"));
    test.case(80, |b| b.text("hello").text("goodbye"), "hellogoodbye");
    test.case(3, |b| b.text("hello").text("goodbye"), "hellogoodbye");
}

#[test]
fn test_allowed_break() {
    let mut test = test_passes(|h| h.text("hello").wbr(0).text("goodbye"));
    test.case(80, |b| b.text("hello").text("goodbye"), "hellogoodbye");
    test.case(7, |b| b.text("hello").br(0).text("goodbye"), "hello\ngoodbye");
}

#[test]
fn test_different_layer_break() {
    let mut test = test_passes(|h| {
        h.text("hello")
            .text("(")
            .wbr(0)
            .text("this")
            .wbr(1)
            .text("is")
            .wbr(1)
            .text("inside")
            .wbr(0)
            .text(")")
    });

    test.case(
        80,
        |b| b.text("hello").text("(").text("this").text("is").text("inside").text(")"),
        "hello(thisisinside)",
    );

    test.case(
        12,
        |b| {
            b.text("hello")
                .text("(")
                .br(0)
                .text("this")
                .text("is")
                .text("inside")
                .br(0)
                .text(")")
        },
        "hello(\nthisisinside\n)",
    );

    test.case(
        7,
        |b| {
            b.text("hello")
                .text("(")
                .br(0)
                .text("this")
                .br(0)
                .text("is")
                .br(0)
                .text("inside")
                .br(0)
                .text(")")
        },
        "hello(\nthis\nis\ninside\n)",
    );
}

#[test]
fn test_interior_content() {
    let mut test = test_passes(|h| {
        h.text("hello")
            .text("(")
            .wbr(1)
            .text("this")
            .wbr(2)
            .space(" ")
            .text("is")
            .wbr(2)
            .space(" ")
            .text("inside")
            .wbr(1)
            .text(")")
    });

    test.case(
        80,
        |b| {
            b.text("hello")
                .text("(")
                .text("this")
                .text(" ")
                .text("is")
                .text(" ")
                .text("inside")
                .text(")")
        },
        "hello(this is inside)",
    );

    test.case(
        14,
        |b| {
            b.text("hello")
                .text("(")
                .br(0)
                .text("this")
                .text(" ")
                .text("is")
                .text(" ")
                .text("inside")
                .br(0)
                .text(")")
        },
        "hello(\nthis is inside\n)",
    );

    test.case(
        7,
        |b| {
            b.text("hello")
                .text("(")
                .br(0)
                .text("this")
                .br(0)
                .text("is")
                .br(0)
                .text("inside")
                .br(0)
                .text(")")
        },
        "hello(\nthis\nis\ninside\n)",
    );
}

#[test]
fn test_indent() {
    let mut test = test_passes(|h| {
        h.text("hello")
            .text("(")
            .nest(0, |h| {
                h.group(|h| {
                    h.text("this")
                        .wbr(0)
                        .space(" ")
                        .text("is")
                        .wbr(0)
                        .space(" ")
                        .text("inside")
                })
            })
            .wbr(0)
            .text(")")
    });

    test.case(
        80,
        |b| {
            b.text("hello")
                .text("(")
                .text("this")
                .text(" ")
                .text("is")
                .text(" ")
                .text("inside")
                .text(")")
        },
        "hello(this is inside)",
    );

    test.case(
        16,
        |b| {
            b.text("hello")
                .text("(")
                .br(1)
                .text("this")
                .text(" ")
                .text("is")
                .text(" ")
                .text("inside")
                .br(0)
                .text(")")
        },
        "hello(\n  this is inside\n)",
    );

    test.case(
        14,
        |b| {
            b.text("hello")
                .text("(")
                .br(1)
                .text("this")
                .br(1)
                .text("is")
                .br(1)
                .text("inside")
                .br(0)
                .text(")")
        },
        "hello(\n  this\n  is\n  inside\n)",
    );
}

#[test]
fn test_atomic_subcontent() {
    let mut test = test_passes(|h| {
        h.group(|h| {
            h.group(|h| h.text("hello").wbr(1).space(" ").text("world"))
                .wbr(0)
                .space(" ")
                .group(|h| h.text("hellooooo").wbr(1).space(" ").text("world"))
        })
    });

    test.case(
        80,
        |b| {
            b.text("hello")
                .text(" ")
                .text("world")
                .text(" ")
                .text("hellooooo")
                .text(" ")
                .text("world")
        },
        "hello world hellooooo world",
    );

    test.case(
        15,
        |b| {
            b.text("hello")
                .text(" ")
                .text("world")
                .br(0)
                .text("hellooooo")
                .text(" ")
                .text("world")
        },
        "hello world\nhellooooo world",
    );

    test.case(
        14,
        |b| {
            b.text("hello")
                .text(" ")
                .text("world")
                .br(0)
                .text("hellooooo")
                .br(0)
                .text("world")
        },
        "hello world\nhellooooo\nworld",
    );

    test.case(
        10,
        |b| {
            b.text("hello")
                .br(0)
                .text("world")
                .br(0)
                .text("hellooooo")
                .br(0)
                .text("world")
        },
        "hello\nworld\nhellooooo\nworld",
    );
}

#[test]
fn test_atomic_subcontent_with_indentation() {
    let mut test = test_passes(|h| {
        h.text("(")
            .nest(0, |h| {
                h.group(|h| {
                    h.group(|h| h.text("hello").wbr(1).space(" ").text("world").text(","))
                        .wbr(0)
                        .space(" ")
                        .group(|h| h.text("hellooooo").wbr(1).space(" ").text("world"))
                })
            })
            .wbr(0)
            .text(")")
    });

    test.case(
        80,
        |b| {
            b.text("(")
                .text("hello")
                .text(" ")
                .text("world")
                .text(",")
                .text(" ")
                .text("hellooooo")
                .text(" ")
                .text("world")
                .text(")")
        },
        "(hello world, hellooooo world)",
    );

    test.case(
        17,
        |b| {
            b.text("(")
                .br(1)
                .text("hello")
                .text(" ")
                .text("world")
                .text(",")
                .br(1)
                .text("hellooooo")
                .text(" ")
                .text("world")
                .br(0)
                .text(")")
        },
        "(\n  hello world,\n  hellooooo world\n)",
    );

    test.case(
        16,
        |b| {
            b.text("(")
                .br(1)
                .text("hello")
                .text(" ")
                .text("world")
                .text(",")
                .br(1)
                .text("hellooooo")
                .br(1)
                .text("world")
                .br(0)
                .text(")")
        },
        "(\n  hello world,\n  hellooooo\n  world\n)",
    );

    test.case(
        13,
        |b| {
            b.text("(")
                .br(1)
                .text("hello")
                .br(1)
                .text("world")
                .text(",")
                .br(1)
                .text("hellooooo")
                .br(1)
                .text("world")
                .br(0)
                .text(")")
        },
        "(\n  hello\n  world,\n  hellooooo\n  world\n)",
    );
}

#[test]
fn test_prettier_playground_1() {
    let mut test = test_passes(|h| {
        h.text("function")
            .space(" ")
            .text("HelloWorld")
            .text("(")
            .text("{")
            .nest(1, |h| {
                h.space(" ")
                    .text("greeting")
                    .space(" ")
                    .text("=")
                    .space(" ")
                    .text("\"hello\"")
                    .text(",")
                    .wbr(1)
                    .space(" ")
                    .text("greeted")
                    .space(" ")
                    .text("=")
                    .space(" ")
                    .text("'\"World\"'")
                    .text(",")
                    .wbr(1)
                    .space(" ")
                    .text("silent")
                    .space(" ")
                    .text("=")
                    .space(" ")
                    .text("false")
                    .text(",")
                    .wbr(1)
                    .space(" ")
                    .text("onMouseOver")
            })
            .wbr(1)
            .space(" ")
            .text("}")
            .text(")")
            .space(" ")
            .text("{")
            .text("}")
    });

    test.case(
        100,
        |b| {
            b.text("function")
                .space(" ")
                .text("HelloWorld")
                .text("(")
                .text("{")
                .space(" ")
                .text("greeting")
                .space(" ")
                .text("=")
                .space(" ")
                .text("\"hello\"")
                .text(",")
                .space(" ")
                .text("greeted")
                .space(" ")
                .text("=")
                .space(" ")
                .text("'\"World\"'")
                .text(",")
                .space(" ")
                .text("silent")
                .space(" ")
                .text("=")
                .space(" ")
                .text("false")
                .text(",")
                .space(" ")
                .text("onMouseOver")
                .space(" ")
                .text("}")
                .text(")")
                .space(" ")
                .text("{")
                .text("}")
        },
        r#"function HelloWorld({ greeting = "hello", greeted = '"World"', silent = false, onMouseOver }) {}"#,
    );

    test.case(
        95,
        |b| {
            b.text("function")
                .space(" ")
                .text("HelloWorld")
                .text("(")
                .text("{")
                .br(1)
                .text("greeting")
                .space(" ")
                .text("=")
                .space(" ")
                .text("\"hello\"")
                .text(",")
                .br(1)
                .text("greeted")
                .space(" ")
                .text("=")
                .space(" ")
                .text("'\"World\"'")
                .text(",")
                .br(1)
                .text("silent")
                .space(" ")
                .text("=")
                .space(" ")
                .text("false")
                .text(",")
                .br(1)
                .text("onMouseOver")
                .br(0)
                .text("}")
                .text(")")
                .space(" ")
                .text("{")
                .text("}")
        },
        "function HelloWorld({\n  greeting = \"hello\",\n  greeted = '\"World\"',\n  silent = false,\n  onMouseOver\n}) {}",
    );
}

#[test]
fn test_glimmer_example() {
    let mut test = test_passes(|h| {
        h.text("<")
            .text("div")
            .nest(1, |h| {
                h.space(" ")
                    .text("class")
                    .text("=")
                    .text("\"")
                    .text("entry")
                    .text("\"")
                    .wbr(1)
            })
            .text(">")
            .br()
            .indent()
            .group(|h| {
                h.text("<h1>")
                    .br()
                    .indent()
                    .text("{{")
                    .wbr(2)
                    .text("title")
                    .wbr(2)
                    .text("}}")
                    .br()
                    .outdent()
                    .text("</h1>")
            })
            .outdent()
            .br()
            .text("</div>")
    });

    test.case(
        20,
        |b| {
            b.text("<")
                .text("div")
                .space(" ")
                .text("class")
                .text("=")
                .text("\"")
                .text("entry")
                .text("\"")
                .text(">")
                .br(1)
                .text("<h1>")
                .br(2)
                .text("{{")
                .text("title")
                .text("}}")
                .br(1)
                .text("</h1>")
                .br(0)
                .text("</div>")
        },
        "<div class=\"entry\">\n  <h1>\n    {{title}}\n  </h1>\n</div>",
    );

    test.case(
        18,
        |b| {
            b.text("<")
                .text("div")
                .br(1)
                .text("class")
                .text("=")
                .text("\"")
                .text("entry")
                .text("\"")
                .br(0)
                .text(">")
                .br(1)
                .text("<h1>")
                .br(2)
                .text("{{")
                .text("title")
                .text("}}")
                .br(1)
                .text("</h1>")
                .br(0)
                .text("</div>")
        },
        "<div\n  class=\"entry\"\n>\n  <h1>\n    {{title}}\n  </h1>\n</div>",
    );
}

#[test]
fn test_prettier_playground() {}

#[test]
fn overflowing_lines_keep_their_text() {
    let mut test = test_passes(|h| h.text("aaaa").br().text("bbbb"));
    test.case(80, |b| b.text("aaaa").br(0).text("bbbb"), "aaaa\nbbbb");
    test.case(2, |b| b.text("aaaa").br(0).text("bbbb"), "aaaa\nbbbb");
}
