use sari::{Error, SourcePos, SourceSpan};

#[test]
fn error_fmt_works() {
    let span = SourceSpan::new(SourcePos::new(4, 1, 5), SourcePos::new(8, 2, 3));
    let error = Error::new(span, "division by zero");

    assert_eq!(error.to_string(), "1:5-2:3: division by zero");
}

#[test]
fn error_accessors_work() {
    let span = SourceSpan::new(SourcePos::new(4, 1, 5), SourcePos::new(8, 2, 3));
    let error = Error::new(span, "division by zero");

    assert_eq!(error.span(), span);
    assert_eq!(error.message(), "division by zero");
}

#[test]
fn position_format_uses_decimal_digits() {
    let pos = SourcePos::new(123, 12, 345);

    assert_eq!(pos.to_string(), "12:345");
    assert_eq!(SourcePos::new(0, 1, 1).to_string(), "1:1");
    assert_eq!(SourcePos::new(0, 10, 100000).to_string(), "10:100000");
}
