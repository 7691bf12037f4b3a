use review_tool::parse::list_functions;

fn names_of(source: &str) -> Vec<String> {
    list_functions(&String::from("test.rs"), source).expect("source should parse")
}

#[test]
fn two_functions_in_order() {
    let names = names_of("fn foo() {}\nfn bar() {}\n");
    assert_eq!(names, vec!["foo".to_string(), "bar".to_string()]);
}

#[test]
fn zero_functions_empty_output() {
    let names = names_of("struct OnlyAType {\n    field: u32,\n}\n");
    assert_eq!(names, Vec::<String>::new());
}

#[test]
fn many_functions_count_and_order() {
    let names = names_of("fn a() {}\nstruct S;\nfn b() {}\nenum E { V }\nfn c() {}\n");
    assert_eq!(names, vec!["a".to_string(), "b".to_string(), "c".to_string()]);
}

#[test]
fn nested_function_not_listed() {
    let names = names_of("fn outer() { fn inner() {} }");
    assert_eq!(names, vec!["outer".to_string()]);
}

#[test]
fn functions_inside_impl_and_mod_not_listed() {
    let source = "struct S;\nimpl S {\n    fn method(&self) {}\n}\nmod inner {\n    fn hidden() {}\n}\nfn visible() {}\n";
    let names = names_of(source);
    assert_eq!(names, vec!["visible".to_string()]);
}

#[test]
fn empty_file_parses_to_nothing() {
    let names = names_of("");
    assert_eq!(names, Vec::<String>::new());
}

#[test]
fn malformed_source_is_a_parse_error() {
    let path = String::from("src/broken.rs");
    let r = list_functions(&path, "fn incomplete( {");
    let err = r.err().expect("malformed text must not parse");
    assert_eq!(err.path, "src/broken.rs".to_string());
}
