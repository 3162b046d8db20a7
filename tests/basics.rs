use watex::Span;

#[test]
fn it_works() {
    let result = 2 + 2;
    assert_eq!(result, 4);
}

#[test]
fn span_accessors() {
    let s = Span::new(3, 9);
    assert_eq!((s.lin(), s.col()), (3, 9));
}

#[test]
fn span_to_string() {
    assert_eq!(Span::new(2, 30).to_string(), "line 2, column 30");
    assert_eq!(Span::new(1, 1).to_string(), "line 1, column 1");
    assert_eq!(Span::new(10, 1234567).to_string(), "line 10, column 1234567");
}
