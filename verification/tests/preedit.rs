use manbo::preedit::{MarkedSegment, Preedit, PreeditStyle};

fn marked(text: &str, kind: PreeditStyle) -> MarkedSegment {
    MarkedSegment { text: text.to_owned(), kind }
}

#[test]
fn builds_from_marked_segments_and_concatenates() {
    let segments = [
        marked("ni'hao", PreeditStyle::Typed),
        marked("", PreeditStyle::Rest),
        marked("'ma", PreeditStyle::Rest),
    ];
    let preedit = Preedit::from_marked(&segments, 6).unwrap();
    assert_eq!(preedit.segments.len(), 2);
    assert_eq!(preedit.segments[1].style, PreeditStyle::Rest);
    assert_eq!(preedit.text(), "ni'hao'ma");
    assert_eq!(preedit.before_cursor(), "ni'hao");
    assert!(Preedit::from_marked(&[], 0).is_none());
    assert!(Preedit::plain("", 0).is_none());
}

#[test]
fn a_plain_preedit_is_one_typed_segment() {
    let preedit = Preedit::plain("hello", 2).unwrap();
    assert_eq!(preedit.segments.len(), 1);
    assert_eq!(preedit.segments[0].style, PreeditStyle::Typed);
    assert_eq!(preedit.text(), "hello");
    assert_eq!(preedit.before_cursor(), "he");
}
