use codedb::grammar::{
    c_config, extract_symbols, get_config, go_config, javascript_config, python_config, rust_config,
    typescript_config,
};

#[test]
fn test_rust_function_def() {
    let source = r#"
fn hello() {
    println!("hi");
}

fn world() {
    hello();
}
"#;
    let config = rust_config();
    let (symbols, refs) = extract_symbols(source, &config).expect("extraction failed");

    // Two function symbols
    assert_eq!(symbols.len(), 2, "expected 2 symbols, got: {symbols:#?}");
    assert_eq!(symbols[0].name, "hello");
    assert_eq!(symbols[0].kind, "function");
    assert_eq!(symbols[1].name, "world");
    assert_eq!(symbols[1].kind, "function");

    // hello() call inside world, plus println! macro
    let hello_refs: Vec<_> = refs.iter().filter(|r| r.ref_name == "hello").collect();
    assert_eq!(hello_refs.len(), 1, "expected 1 hello ref, got: {refs:#?}");
    assert_eq!(
        hello_refs[0].containing_symbol_index,
        Some(1),
        "hello() ref should be inside world"
    );

    // println! macro ref
    let println_refs: Vec<_> = refs.iter().filter(|r| r.ref_name == "println").collect();
    assert_eq!(println_refs.len(), 1, "expected 1 println ref, got: {refs:#?}");
}

#[test]
fn test_rust_struct_and_impl() {
    let source = r#"
struct Foo {
    x: i32,
}

impl Foo {
    fn bar(&self) {
        baz();
    }
}
"#;
    let config = rust_config();
    let (symbols, refs) = extract_symbols(source, &config).expect("extraction failed");

    // Expect: Foo struct, Foo impl, bar function
    let names: Vec<&str> = symbols.iter().map(|s| s.name.as_str()).collect();
    assert!(names.contains(&"Foo"), "missing Foo: {names:?}");
    assert!(names.contains(&"bar"), "missing bar: {names:?}");

    let foo_struct = symbols.iter().find(|s| s.name == "Foo" && s.kind == "struct");
    assert!(foo_struct.is_some(), "missing Foo struct");

    let foo_impl = symbols.iter().find(|s| s.name == "Foo" && s.kind == "impl");
    assert!(foo_impl.is_some(), "missing Foo impl");

    let bar_sym = symbols.iter().find(|s| s.name == "bar").unwrap();
    assert_eq!(bar_sym.kind, "function");
    // bar should be nested inside impl Foo
    assert!(bar_sym.parent_index.is_some(), "bar should have a parent");
    let parent = &symbols[bar_sym.parent_index.unwrap()];
    assert_eq!(parent.name, "Foo");
    assert_eq!(parent.kind, "impl");

    // baz() call ref, inside bar
    let baz_refs: Vec<_> = refs.iter().filter(|r| r.ref_name == "baz").collect();
    assert_eq!(baz_refs.len(), 1);
    let bar_idx = symbols.iter().position(|s| s.name == "bar").unwrap();
    assert_eq!(baz_refs[0].containing_symbol_index, Some(bar_idx));
}

#[test]
fn test_python_extraction() {
    let source = r#"
class MyClass:
    def method(self):
        other_func()

def standalone():
    pass
"#;
    let config = python_config();
    let (symbols, refs) = extract_symbols(source, &config).expect("extraction failed");

    // MyClass, method, standalone
    assert_eq!(symbols.len(), 3, "expected 3 symbols, got: {symbols:#?}");

    let myclass = symbols.iter().find(|s| s.name == "MyClass").unwrap();
    assert_eq!(myclass.kind, "class");

    let method = symbols.iter().find(|s| s.name == "method").unwrap();
    assert_eq!(method.kind, "function");
    assert!(method.parent_index.is_some(), "method should be nested in MyClass");
    let parent = &symbols[method.parent_index.unwrap()];
    assert_eq!(parent.name, "MyClass");

    let standalone = symbols.iter().find(|s| s.name == "standalone").unwrap();
    assert!(standalone.parent_index.is_none());

    // other_func() reference
    let other_refs: Vec<_> = refs.iter().filter(|r| r.ref_name == "other_func").collect();
    assert_eq!(other_refs.len(), 1);
}

#[test]
fn test_go_extraction() {
    let source = r#"
package main

func hello() {
    world()
}

func world() {
}
"#;
    let config = go_config();
    let (symbols, refs) = extract_symbols(source, &config).expect("extraction failed");

    assert_eq!(symbols.len(), 2, "expected 2 symbols, got: {symbols:#?}");
    assert_eq!(symbols[0].name, "hello");
    assert_eq!(symbols[1].name, "world");

    let world_refs: Vec<_> = refs.iter().filter(|r| r.ref_name == "world").collect();
    assert_eq!(world_refs.len(), 1, "expected world() call ref");
}

#[test]
fn test_c_extraction() {
    let source = r#"
struct Point {
    int x;
    int y;
};

int add(int a, int b) {
    return a + b;
}

int main() {
    add(1, 2);
    return 0;
}
"#;
    let config = c_config();
    let (symbols, refs) = extract_symbols(source, &config).expect("extraction failed");

    let names: Vec<&str> = symbols.iter().map(|s| s.name.as_str()).collect();
    assert!(names.contains(&"Point"), "missing Point: {names:?}");
    assert!(names.contains(&"add"), "missing add: {names:?}");
    assert!(names.contains(&"main"), "missing main: {names:?}");

    let point = symbols.iter().find(|s| s.name == "Point").unwrap();
    assert_eq!(point.kind, "struct");

    // add() call reference inside main
    let add_refs: Vec<_> = refs.iter().filter(|r| r.ref_name == "add").collect();
    assert_eq!(add_refs.len(), 1);
    let main_idx = symbols.iter().position(|s| s.name == "main").unwrap();
    assert_eq!(add_refs[0].containing_symbol_index, Some(main_idx));
}

#[test]
fn test_unsupported_language() {
    assert!(get_config("fortran").is_none());
    assert!(get_config("haskell").is_none());
}

#[test]
fn test_rust_type_info() {
    let source = r#"
fn hello(x: i32, y: &str) -> String {
    x.to_string()
}

struct Foo {
    bar: Vec<String>,
}

impl Foo {
    fn method(&self, n: usize) -> Option<i32> {
        None
    }
}
"#;
    let config = rust_config();
    let (symbols, _) = extract_symbols(source, &config).unwrap();

    let hello = symbols.iter().find(|s| s.name == "hello").unwrap();
    assert_eq!(hello.signature.as_deref(), Some("fn hello(x: i32, y: &str) -> String"));
    assert_eq!(hello.return_type.as_deref(), Some("String"));
    assert_eq!(hello.params.as_deref(), Some("x: i32, y: &str"));

    let foo = symbols.iter().find(|s| s.name == "Foo" && s.kind == "struct").unwrap();
    assert_eq!(foo.signature.as_deref(), Some("struct Foo"));
    assert!(foo.return_type.is_none());
    assert!(foo.params.is_none());

    let method = symbols.iter().find(|s| s.name == "method").unwrap();
    assert_eq!(method.return_type.as_deref(), Some("Option<i32>"));
    assert_eq!(method.params.as_deref(), Some("&self, n: usize"));
}

#[test]
fn test_python_type_info() {
    let source = "def hello(x: int, y: str) -> str:\n    return \"\"\n";
    let config = python_config();
    let (symbols, _) = extract_symbols(source, &config).unwrap();

    let hello = &symbols[0];
    assert_eq!(hello.return_type.as_deref(), Some("str"));
    assert_eq!(hello.params.as_deref(), Some("x: int, y: str"));
}

#[test]
fn test_go_type_info() {
    let source = r#"
package main

func hello(x int, y string) string {
    return ""
}
"#;
    let config = go_config();
    let (symbols, _) = extract_symbols(source, &config).unwrap();

    let hello = &symbols[0];
    assert_eq!(hello.return_type.as_deref(), Some("string"));
    assert_eq!(hello.params.as_deref(), Some("x int, y string"));
}

#[test]
fn test_typescript_type_info() {
    let source = "function hello(x: number, y: string): string {\n    return \"\";\n}\n";
    let config = typescript_config();
    let (symbols, _) = extract_symbols(source, &config).expect("TS extraction failed");

    assert!(!symbols.is_empty(), "should extract at least one symbol, got: {symbols:#?}");
    let hello = &symbols[0];
    assert_eq!(hello.return_type.as_deref(), Some("string"));
    assert_eq!(hello.params.as_deref(), Some("x: number, y: string"));
}

#[test]
fn test_c_type_info() {
    let source = r#"
int add(int a, int b) {
    return a + b;
}
"#;
    let config = c_config();
    let (symbols, _) = extract_symbols(source, &config).unwrap();

    let add = symbols.iter().find(|s| s.name == "add").unwrap();
    assert_eq!(add.return_type.as_deref(), Some("int"));
    assert_eq!(add.params.as_deref(), Some("int a, int b"));
}

#[test]
fn test_js_no_types() {
    let source = r#"
function hello(x, y) {
    return x;
}
"#;
    let config = javascript_config();
    let (symbols, _) = extract_symbols(source, &config).unwrap();

    let hello = &symbols[0];
    assert!(hello.return_type.is_none());
    assert_eq!(hello.params.as_deref(), Some("x, y"));
}

#[test]
fn extraction_positions_are_one_based_and_sorted() {
    let source = "fn outer() {\n    fn inner() {}\n}\n";
    let config = rust_config();
    let (symbols, refs) = extract_symbols(source, &config).unwrap();
    assert_eq!(symbols.len(), 2);
    assert_eq!(symbols[0].name, "outer");
    assert_eq!((symbols[0].line, symbols[0].col), (1, 1));
    assert_eq!((symbols[0].end_line, symbols[0].end_col), (3, 2));
    assert_eq!(symbols[1].name, "inner");
    assert_eq!((symbols[1].line, symbols[1].col), (2, 5));
    assert_eq!(symbols[1].parent_index, Some(0));
    assert_eq!(symbols[0].parent_index, None);
    assert_eq!(symbols[0].start_byte, 0);
    assert!(refs.is_empty());
}

#[test]
fn extraction_of_tsx_and_cpp_configs() {
    let tsx = get_config("tsx").unwrap();
    assert_eq!(tsx.name, "tsx");
    let (symbols, _) = extract_symbols("function App() { return null; }\n", &tsx).unwrap();
    assert_eq!(symbols[0].name, "App");
    let cpp = get_config("cpp").unwrap();
    assert_eq!(cpp.name, "cpp");
    assert!(cpp.def_query.contains("namespace_definition"));
    assert!(cpp.ref_query.contains("qualified_identifier"));
}
