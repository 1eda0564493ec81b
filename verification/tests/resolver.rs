use reshaper_loc::loctext::format_location;
use reshaper_loc::loctext::u32_decimal;
use reshaper_loc::source::Origin;
use reshaper_loc::source::ResolveError;
use reshaper_loc::source::SourceBuffer;
use reshaper_loc::tree::Span;

fn buffer(text: &str, origin: Origin) -> SourceBuffer {
    SourceBuffer { text: text.as_bytes().to_vec(), origin }
}

#[test]
fn resolve_start_of_buffer() {
    let buf = buffer("ab\ncd", Origin::File(String::from("f")));
    let pos = buf.resolve(Span { lo: 0, hi: 0 }).unwrap();
    assert_eq!(pos.origin, "f");
    assert_eq!(pos.line, 1);
    assert_eq!(pos.col, 0);
}

#[test]
fn resolve_before_newline() {
    let buf = buffer("ab\ncd", Origin::File(String::from("f")));
    let pos = buf.resolve(Span { lo: 2, hi: 2 }).unwrap();
    assert_eq!(pos.line, 1);
    assert_eq!(pos.col, 2);
}

#[test]
fn resolve_second_line() {
    let buf = buffer("ab\ncd", Origin::File(String::from("f")));
    let pos = buf.resolve(Span { lo: 3, hi: 5 }).unwrap();
    assert_eq!(pos.line, 2);
    assert_eq!(pos.col, 0);
}

#[test]
fn resolve_end_of_buffer() {
    let buf = buffer("ab\ncd", Origin::File(String::from("f")));
    let pos = buf.resolve(Span { lo: 5, hi: 5 }).unwrap();
    assert_eq!(pos.line, 2);
    assert_eq!(pos.col, 2);
}

#[test]
fn resolve_empty_buffer() {
    let buf = buffer("", Origin::File(String::from("f")));
    let pos = buf.resolve(Span { lo: 0, hi: 0 }).unwrap();
    assert_eq!(pos.line, 1);
    assert_eq!(pos.col, 0);
}

#[test]
fn resolve_carriage_return_is_not_a_newline() {
    let buf = buffer("a\r\nb", Origin::File(String::from("f")));
    let pos = buf.resolve(Span { lo: 3, hi: 4 }).unwrap();
    assert_eq!(pos.line, 2);
    assert_eq!(pos.col, 0);
    let pos = buf.resolve(Span { lo: 2, hi: 2 }).unwrap();
    assert_eq!(pos.line, 1);
    assert_eq!(pos.col, 2);
}

#[test]
fn resolve_synthetic_origin_is_empty_path() {
    let buf = buffer("x", Origin::Synthetic);
    let pos = buf.resolve(Span { lo: 0, hi: 1 }).unwrap();
    assert_eq!(pos.origin, "");
}

#[test]
fn resolve_malformed_span() {
    let buf = buffer("abc", Origin::Synthetic);
    let r = buf.resolve(Span { lo: 2, hi: 1 });
    assert_eq!(r.unwrap_err(), ResolveError::MalformedSpan);
}

#[test]
fn resolve_out_of_range() {
    let buf = buffer("abc", Origin::Synthetic);
    let r = buf.resolve(Span { lo: 4, hi: 5 });
    assert_eq!(r.unwrap_err(), ResolveError::OutOfRange);
}

#[test]
fn decimal_rendering() {
    assert_eq!(u32_decimal(0), "0");
    assert_eq!(u32_decimal(7), "7");
    assert_eq!(u32_decimal(10), "10");
    assert_eq!(u32_decimal(105), "105");
    assert_eq!(u32_decimal(4294967295), "4294967295");
}

#[test]
fn location_formatting() {
    assert_eq!(format_location("src/app.tsx", 12, 4), "src/app.tsx:12:4");
    assert_eq!(format_location("", 3, 0), ":3:0");
}
