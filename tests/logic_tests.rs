use rust_diagram::decl::{Decl, FnDecl, ModDecl};
use rust_diagram::items::FunctionContext;
use rust_diagram::logic::{Event, ItemVisitor, TraverseError, Visit};

/// Runs the engine on `path` over a source tree in which no file exists.
fn parse_file_recursive(path: &String, include_tests: bool) -> Result<Vec<Event>, TraverseError> {
    let mut visitor = ItemVisitor::new();
    loop {
        match visitor.visit_file(path, include_tests) {
            Visit::Complete(events) => return Ok(events),
            Visit::Failed(e) => return Err(e),
            Visit::NeedFile(p) => visitor.record(p, rust_diagram::logic::SourceFile::Missing),
        }
    }
}

#[test]
fn test_parse_file_recursive_invalid_path() {
    let path = String::from("invalid/path.rs");
    let result = parse_file_recursive(&path, false);
    result.unwrap_err();
}

#[test]
fn test_organize_and_render_items_empty() {
    let path = String::from("src/main.rs");
    let items = vec![];
    let visitor = ItemVisitor::new();
    let result = visitor.visit_items(&path, &items, false, false);
    assert!(matches!(result, Visit::Complete(_)));
    assert_eq!(result, Visit::Complete(vec![]));
}

#[test]
fn visit_items_in_test_scope() {
    let items = vec![
        Decl::Function(FnDecl {
            name: String::from("f"),
            attrs: vec![],
            is_public: true,
            is_async: false,
            is_const: false,
            is_unsafe: false,
            params: vec![],
            return_type: Some(String::from("u8")),
        }),
        Decl::Module(ModDecl { name: String::from("outside"), is_public: false, attrs: vec![], content: None }),
    ];
    let visitor = ItemVisitor::new();
    // A test-only scope shows nothing and looks for no module file.
    assert_eq!(visitor.visit_items(&String::from("src/main.rs"), &items, false, true), Visit::Complete(vec![]));
    // Outside a test scope the module's file is asked for before anything is drawn.
    assert_eq!(
        visitor.visit_items(&String::from("src/main.rs"), &items, false, false),
        Visit::NeedFile(String::from("src/outside.rs"))
    );
    let only_fn = vec![items.into_iter().next().unwrap()];
    assert_eq!(
        visitor.visit_items(&String::from("main.rs"), &only_fn, true, true),
        Visit::Complete(vec![Event::Function(FunctionContext {
            name: String::from("f"),
            params: String::new(),
            return_type: Some(String::from("u8")),
            visibility: Some(String::from("pub")),
            modifiers: None,
        })])
    );
}
