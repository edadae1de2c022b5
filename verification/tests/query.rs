use parser::query::build_query;
use parser::query::Argument;
use parser::query::Query;
use parser::query::QueryError;
use parser::scanner::scan;
use parser::scanner::ScanError;
use parser::scanner::TypeTag;

#[test]
fn test() {
    let res = scan("Hello %s").unwrap();
    println!("res: {:?}", res);

    let res = build_query("Hello %d", Argument::Number(1)).unwrap();
    println!("res: {:?}", res);

    let res = build_query("Hello %s", Argument::String("abc".to_string())).unwrap();
    println!("res: {:?}", res);
}

#[test]
fn build_query_number() {
    let q = build_query("Count: %d items", Argument::Number(7)).unwrap();
    assert_eq!(q.fragment, "Count: ");
    assert!(matches!(q.argument, Argument::Number(7)));
}

#[test]
fn build_query_text() {
    let q = build_query("Hello %s", Argument::String("abc".to_string())).unwrap();
    assert_eq!(q.fragment, "Hello ");
    assert!(matches!(q.argument, Argument::String(ref s) if s == "abc"));
}

#[test]
fn build_query_rejects_text_where_number_declared() {
    let res = build_query("Hello %d", Argument::String("abc".to_string()));
    assert_eq!(
        res.unwrap_err(),
        QueryError::ArgumentMismatch { expected: TypeTag::Number }
    );
}

#[test]
fn build_query_rejects_number_where_text_declared() {
    let res = build_query("Hello %s", Argument::Number(1));
    assert_eq!(
        res.unwrap_err(),
        QueryError::ArgumentMismatch { expected: TypeTag::Text }
    );
}

#[test]
fn build_query_reports_scan_failure() {
    let res = build_query("no marker here", Argument::Number(1));
    assert_eq!(res.unwrap_err(), QueryError::Scan(ScanError::MarkerNotFound));
    let res = build_query("%s", Argument::String("abc".to_string()));
    assert_eq!(res.unwrap_err(), QueryError::Scan(ScanError::EmptyPrefix));
    let res = build_query("Value %x", Argument::Number(1));
    assert_eq!(
        res.unwrap_err(),
        QueryError::Scan(ScanError::UnrecognizedTag { found: 'x' })
    );
}

#[test]
fn argument_tags() {
    assert_eq!(Argument::Number(3).tag(), TypeTag::Number);
    assert_eq!(Argument::String("abc".to_string()).tag(), TypeTag::Text);
}

#[test]
fn query_can_be_built_directly() {
    let res = Query { fragment: "Hello ", argument: Argument::String("abc".to_string()) };
    println!("res: {:?}", res);
    assert_eq!(res.fragment, "Hello ");
}
