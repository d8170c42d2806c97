use cxx_qt_lib::QMessageLogContext;

#[test]
fn context_returns_what_it_was_given() {
    let context = QMessageLogContext::new(42, b"src/main.cpp", b"main", b"default");
    assert_eq!(context.line(), 42);
    assert_eq!(context.file(), b"src/main.cpp");
    assert_eq!(context.function(), b"main");
    assert_eq!(context.category(), b"default");
}

#[test]
fn context_keeps_the_three_texts_apart() {
    let context = QMessageLogContext::new(-1, b"a", b"b", b"c");
    assert_eq!(context.line(), -1);
    assert_eq!(context.file(), b"a");
    assert_eq!(context.function(), b"b");
    assert_eq!(context.category(), b"c");
}

#[test]
fn context_of_empty_texts_and_extreme_lines() {
    let low = QMessageLogContext::new(i32::MIN, b"", b"", b"");
    assert_eq!(low.line(), i32::MIN);
    assert!(low.file().is_empty());
    assert!(low.function().is_empty());
    assert!(low.category().is_empty());
    let high = QMessageLogContext::new(i32::MAX, b"f", b"", b"");
    assert_eq!(high.line(), i32::MAX);
    assert_eq!(high.file(), b"f");
}

#[test]
fn context_outlives_nothing_it_borrows() {
    let file = String::from("widget.cpp");
    let function = String::from("paint");
    let context = QMessageLogContext::new(7, file.as_bytes(), function.as_bytes(), b"gui");
    let copy = context;
    assert_eq!(copy.file(), file.as_bytes());
    assert_eq!(context.function(), function.as_bytes());
    assert_eq!(copy.category(), b"gui");
}
