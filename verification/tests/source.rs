use wyst::source::{HasLen, Offset, Source, Span, Spanned};

fn sources() -> (Source, Source, Source, Source, Source) {
    (
        Source::new("test.ts", "hello world"),
        Source::new("test.ts", "hello world"),
        Source::new("test1.ts", "hello world"),
        Source::new("test.ts", "hello world!"),
        Source::new("test1.ts", "hello world!"),
    )
}

#[test]
fn source_filename() {
    let (main, ..) = sources();
    assert_eq!(main.filename, "test.ts");
}

#[test]
fn source_contents() {
    let (main, ..) = sources();
    assert_eq!(main.contents, String::from("hello world"));
    assert_eq!(main.contents(), "hello world");
}

#[test]
fn source_eq() {
    let (main, main_eq, s2, s3, s4) = sources();
    assert_eq!(main, main_eq);
    assert_ne!(main, s2);
    assert_ne!(main, s3);
    assert_ne!(main, s4);
}

#[test]
fn source_as_map_key() {
    let (main, main_eq, s2, s3, s4) = sources();
    let mut map = std::collections::HashMap::new();
    map.insert(main.clone(), "s1");
    assert_eq!(map.get(&main), Some(&"s1"));
    assert_eq!(map.get(&main_eq), Some(&"s1"));
    assert_eq!(map.get(&s2), None);
    assert_eq!(map.get(&s3), None);
    assert_eq!(map.get(&s4), None);
}

#[test]
fn source_slice() {
    let (main, ..) = sources();
    let span = Span::new(6, 11);
    assert_eq!(main.slice(span), "world");
}

#[test]
fn span_slice_multibyte() {
    let span = Span::new(1, 3);
    assert_eq!(span.slice("héllo"), "é");
}

#[test]
fn has_len_for_char() {
    assert_eq!(HasLen::utf8_len(&'h'), 1);
    assert_eq!(HasLen::utf8_len(&'é'), 2);
    assert_eq!(HasLen::utf8_len(&'€'), 3);
    assert_eq!(HasLen::utf8_len(&'😀'), 4);
}

#[test]
fn has_len_for_ref_char() {
    assert_eq!(HasLen::utf8_len(&&'h'), 1);
}

#[test]
fn has_len_for_str_and_string() {
    assert_eq!(HasLen::utf8_len(&"héllo"), 6);
    assert_eq!(HasLen::utf8_len(&String::from("abc")), 3);
}

#[test]
fn offset_copy() {
    let offset = Offset::new(0);
    fn byte(o: Offset) -> usize {
        o.byte()
    }
    assert_eq!(byte(offset), 0);
    assert_eq!(byte(offset), 0);
    assert_eq!(Offset::from(7usize).byte(), 7);
}

#[test]
fn span_copy() {
    let span = Span::new(0, 0);
    fn bytes(s: Span) -> (usize, usize) {
        (s.start().byte(), s.end().byte())
    }
    assert_eq!(bytes(span), (0, 0));
    assert_eq!(bytes(span), (0, 0));
}

#[test]
fn span_until_and_eof() {
    let a = Span::new(2, 4);
    let b = Span::new(7, 9);
    assert_eq!(a.until(b), Span::new(2, 9));
    assert_eq!(Span::EOF(Offset::new(5)), Span::new(5, 5));
}

#[test]
fn spanned_map_keeps_span() {
    let s = Spanned::new(Span::new(1, 2), 10u32);
    let m = s.map(|x| x + 1);
    assert_eq!(m.span(), Span::new(1, 2));
    assert_eq!(*m.item(), 11);
}
