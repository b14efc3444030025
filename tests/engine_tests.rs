use rust_diagram::decl::{Attribute, Decl, EnumDecl, Field, FnDecl, ImplDecl, ModDecl, StructDecl, Variant};
use rust_diagram::items::{
    EnumContext, EnumVariantContext, FunctionContext, ImplContext, StructContext, StructFieldContext,
};
use rust_diagram::logic::{Event, ItemVisitor, Resolution, SourceFile, TraverseError, Visit};

fn s(x: &str) -> String {
    x.to_string()
}

fn test_attr() -> Attribute {
    Attribute::Word(s("test"))
}

fn cfg_test() -> Attribute {
    Attribute::List(s("cfg"), vec![s("test")])
}

fn strukt(name: &str, attrs: Vec<Attribute>, fields: &[(&str, &str, bool)]) -> Decl {
    Decl::Struct(StructDecl {
        name: s(name),
        attrs,
        fields: fields
            .iter()
            .map(|(n, t, p)| Field { name: s(n), type_text: s(t), is_public: *p })
            .collect(),
    })
}

fn fn_decl(name: &str, attrs: Vec<Attribute>) -> FnDecl {
    FnDecl {
        name: s(name),
        attrs,
        is_public: false,
        is_async: false,
        is_const: false,
        is_unsafe: false,
        params: vec![],
        return_type: None,
    }
}

fn func(name: &str, attrs: Vec<Attribute>) -> Decl {
    Decl::Function(fn_decl(name, attrs))
}

fn imp(target: &str, attrs: Vec<Attribute>, functions: Vec<FnDecl>) -> Decl {
    Decl::TraitImpl(ImplDecl {
        target_type: s(target),
        trait_name: None,
        generics: None,
        attrs,
        functions,
    })
}

fn enm(name: &str) -> Decl {
    Decl::Enum(EnumDecl {
        name: s(name),
        attrs: vec![],
        variants: vec![
            Variant { name: s("A"), data: None },
            Variant { name: s("B"), data: Some(s("(u8)")) },
        ],
    })
}

fn module(name: &str, attrs: Vec<Attribute>, content: Option<Vec<Decl>>) -> Decl {
    Decl::Module(ModDecl { name: s(name), is_public: false, attrs, content })
}

fn struct_event(name: &str, public: &[(&str, &str)], private: &[(&str, &str)]) -> Event {
    let f = |v: &[(&str, &str)]| {
        v.iter()
            .map(|(n, t)| StructFieldContext { name: s(n), type_: s(t) })
            .collect::<Vec<_>>()
    };
    Event::Struct(StructContext { name: s(name), public_fields: f(public), private_fields: f(private) })
}

fn fn_event(name: &str) -> Event {
    Event::Function(FunctionContext {
        name: s(name),
        params: s(""),
        return_type: None,
        visibility: None,
        modifiers: None,
    })
}

/// A source tree: builds the file at a path, or `None` where nothing exists.
type Tree = fn(&str) -> Option<SourceFile>;

/// Runs the engine against the tree, recording each file it asks for.
fn drive(tree: Tree, entry: &str, include_tests: bool) -> (Visit, Vec<String>) {
    let mut v = ItemVisitor::new();
    let mut asked = Vec::new();
    loop {
        match v.visit_file(&s(entry), include_tests) {
            Visit::NeedFile(p) => {
                assert!(!asked.contains(&p), "asked twice for {p}");
                asked.push(p.clone());
                let file = tree(&p).unwrap_or(SourceFile::Missing);
                v.record(p, file);
            },
            other => return (other, asked),
        }
    }
}

fn events(tree: Tree, entry: &str, include_tests: bool) -> Vec<Event> {
    match drive(tree, entry, include_tests).0 {
        Visit::Complete(e) => e,
        other => panic!("visit did not complete: {other:?}"),
    }
}

#[test]
fn scenario_sibling_module_file() {
    fn tree(p: &str) -> Option<SourceFile> {
        match p {
            "src/main.rs" => Some(SourceFile::Parsed(vec![module("a", vec![], None)])),
            "src/a.rs" => Some(SourceFile::Parsed(vec![strukt("S", vec![], &[("x", "i32", true)])])),
            _ => None,
        }
    }
    assert_eq!(
        events(tree, "src/main.rs", false),
        vec![
            Event::BeginModule(s("a")),
            struct_event("S", &[("x", "i32")], &[]),
            Event::EndModule(s("a")),
        ]
    );
}

#[test]
fn scenario_inline_tests_module_hidden() {
    fn tree(p: &str) -> Option<SourceFile> {
        match p {
            "main.rs" => Some(SourceFile::Parsed(vec![module("tests", vec![], Some(vec![func("t", vec![])]))])),
            _ => None,
        }
    }
    assert_eq!(events(tree, "main.rs", false), vec![]);
    assert_eq!(
        events(tree, "main.rs", true),
        vec![Event::BeginModule(s("tests")), fn_event("t"), Event::EndModule(s("tests"))]
    );
}

#[test]
fn scenario_missing_module() {
    fn tree(p: &str) -> Option<SourceFile> {
        match p {
            "src/main.rs" => Some(SourceFile::Parsed(vec![module("missing", vec![], None)])),
            _ => None,
        }
    }
    let (r, asked) = drive(tree, "src/main.rs", false);
    assert_eq!(
        r,
        Visit::Failed(TraverseError::ModuleNotFound {
            module: s("missing"),
            flat_candidate: s("src/missing.rs"),
            dir_candidate: s("src/missing/mod.rs"),
        })
    );
    assert_eq!(asked, vec![s("src/main.rs"), s("src/missing.rs"), s("src/missing/mod.rs")]);
}

fn mixed_tree(p: &str) -> Option<SourceFile> {
    match p {
        "lib.rs" => Some(SourceFile::Parsed(vec![
            func("f", vec![]),
            module("m", vec![], Some(vec![strukt("Inner", vec![], &[])])),
            Decl::Other,
            imp("X", vec![], vec![fn_decl("g", vec![])]),
            enm("E"),
            module("n", vec![], None),
            strukt("S", vec![], &[("a", "u8", false), ("b", "u16", true), ("0", "u32", false)]),
            func("h", vec![]),
        ])),
        "n.rs" => Some(SourceFile::Parsed(vec![func("in_n", vec![])])),
        _ => None,
    }
}

fn mixed_expected() -> Vec<Event> {
    vec![
        struct_event("S", &[("b", "u16")], &[("a", "u8"), ("0", "u32")]),
        Event::Enum(EnumContext {
            name: s("E"),
            variants: vec![
                EnumVariantContext { name: s("A"), data: None },
                EnumVariantContext { name: s("B"), data: Some(s("(u8)")) },
            ],
        }),
        fn_event("f"),
        fn_event("h"),
        Event::TraitImpl(ImplContext {
            target_type: s("X"),
            trait_name: None,
            generics: None,
            functions: vec![FunctionContext {
                name: s("g"),
                params: s(""),
                return_type: None,
                visibility: None,
                modifiers: None,
            }],
        }),
        Event::BeginModule(s("m")),
        struct_event("Inner", &[], &[]),
        Event::EndModule(s("m")),
        Event::BeginModule(s("n")),
        fn_event("in_n"),
        Event::EndModule(s("n")),
    ]
}

#[test]
fn sections_follow_fixed_order() {
    assert_eq!(events(mixed_tree, "lib.rs", false), mixed_expected());
}

#[test]
fn repeated_runs_are_identical() {
    let first = drive(mixed_tree, "lib.rs", false);
    let second = drive(mixed_tree, "lib.rs", false);
    assert_eq!(first, second);
    // The same files recorded in another order give the same stream.
    let mut v = ItemVisitor::new();
    v.record(s("n.rs"), mixed_tree("n.rs").unwrap());
    v.record(s("lib.rs"), mixed_tree("lib.rs").unwrap());
    assert_eq!(v.visit_file(&s("lib.rs"), false), first.0);
    assert_eq!(v.len(), 2);
}

fn test_heavy_tree(p: &str) -> Option<SourceFile> {
    match p {
        "main.rs" => Some(SourceFile::Parsed(vec![
            func("keep", vec![]),
            func("unit", vec![test_attr()]),
            strukt("Fixture", vec![cfg_test()], &[]),
            module("helpers", vec![cfg_test()], Some(vec![func("h", vec![])])),
            module("tests", vec![], None),
        ])),
        "tests.rs" => Some(SourceFile::Parsed(vec![
            func("deep", vec![]),
            module("inner", vec![], Some(vec![strukt("T", vec![], &[])])),
        ])),
        _ => None,
    }
}

#[test]
fn test_items_excluded_by_default() {
    let (r, asked) = drive(test_heavy_tree, "main.rs", false);
    assert_eq!(r, Visit::Complete(vec![fn_event("keep")]));
    // The out-of-line `tests` module is never looked for.
    assert_eq!(asked, vec![s("main.rs")]);
}

#[test]
fn test_items_drawn_when_included() {
    assert_eq!(
        events(test_heavy_tree, "main.rs", true),
        vec![
            struct_event("Fixture", &[], &[]),
            fn_event("keep"),
            fn_event("unit"),
            Event::BeginModule(s("helpers")),
            fn_event("h"),
            Event::EndModule(s("helpers")),
            Event::BeginModule(s("tests")),
            fn_event("deep"),
            Event::BeginModule(s("inner")),
            struct_event("T", &[], &[]),
            Event::EndModule(s("inner")),
            Event::EndModule(s("tests")),
        ]
    );
}

#[test]
fn module_of_test_items_is_suppressed() {
    fn tree(p: &str) -> Option<SourceFile> {
        match p {
            "main.rs" => Some(SourceFile::Parsed(vec![
                module("only_tests", vec![], Some(vec![func("a", vec![test_attr()]), func("b", vec![cfg_test()])])),
                module("empty", vec![], Some(vec![])),
                module("nested", vec![], Some(vec![module("tests", vec![], Some(vec![func("x", vec![])]))])),
            ])),
            _ => None,
        }
    }
    assert_eq!(events(tree, "main.rs", false), vec![]);
}

#[test]
fn flat_module_file_wins() {
    fn tree(p: &str) -> Option<SourceFile> {
        match p {
            "main.rs" => Some(SourceFile::Parsed(vec![module("foo", vec![], None)])),
            "foo.rs" => Some(SourceFile::Parsed(vec![func("flat", vec![])])),
            "foo/mod.rs" => Some(SourceFile::Parsed(vec![func("nested", vec![])])),
            _ => None,
        }
    }
    assert_eq!(
        events(tree, "main.rs", false),
        vec![Event::BeginModule(s("foo")), fn_event("flat"), Event::EndModule(s("foo"))]
    );
    let mut v = ItemVisitor::new();
    v.record(s("foo.rs"), SourceFile::Parsed(vec![]));
    v.record(s("foo/mod.rs"), SourceFile::Parsed(vec![]));
    assert_eq!(v.resolve_module(&s(""), &s("foo")), Resolution::Found(s("foo.rs")));
}

#[test]
fn directory_module_used_when_flat_file_missing() {
    fn tree(p: &str) -> Option<SourceFile> {
        match p {
            "src/lib.rs" => Some(SourceFile::Parsed(vec![module("foo", vec![], None)])),
            "src/foo/mod.rs" => Some(SourceFile::Parsed(vec![module("bar", vec![], None)])),
            "src/foo/bar.rs" => Some(SourceFile::Parsed(vec![func("deep", vec![])])),
            _ => None,
        }
    }
    assert_eq!(
        events(tree, "src/lib.rs", false),
        vec![
            Event::BeginModule(s("foo")),
            Event::BeginModule(s("bar")),
            fn_event("deep"),
            Event::EndModule(s("bar")),
            Event::EndModule(s("foo")),
        ]
    );
}

#[test]
fn resolution_asks_for_unrecorded_candidates() {
    let mut v = ItemVisitor::new();
    assert_eq!(v.resolve_module(&s("d"), &s("m")), Resolution::Pending(s("d/m.rs")));
    v.record(s("d/m.rs"), SourceFile::Missing);
    assert_eq!(v.resolve_module(&s("d"), &s("m")), Resolution::Pending(s("d/m/mod.rs")));
    v.record(s("d/m/mod.rs"), SourceFile::Missing);
    assert_eq!(
        v.resolve_module(&s("d"), &s("m")),
        Resolution::NotFound { flat_candidate: s("d/m.rs"), dir_candidate: s("d/m/mod.rs") }
    );
    // Recording a path again replaces the earlier record.
    v.record(s("d/m/mod.rs"), SourceFile::Parsed(vec![]));
    assert_eq!(v.resolve_module(&s("d"), &s("m")), Resolution::Found(s("d/m/mod.rs")));
    assert_eq!(v.len(), 2);
}

#[test]
fn impl_with_only_test_member_emits_nothing() {
    fn tree(p: &str) -> Option<SourceFile> {
        match p {
            "main.rs" => Some(SourceFile::Parsed(vec![
                imp("A", vec![], vec![fn_decl("t", vec![test_attr()])]),
                imp("B", vec![], vec![]),
                imp("C", vec![], vec![fn_decl("t", vec![cfg_test()]), fn_decl("kept", vec![])]),
                imp("D", vec![cfg_test()], vec![fn_decl("inside", vec![])]),
            ])),
            _ => None,
        }
    }
    let c_event = Event::TraitImpl(ImplContext {
        target_type: s("C"),
        trait_name: None,
        generics: None,
        functions: vec![FunctionContext {
            name: s("kept"),
            params: s(""),
            return_type: None,
            visibility: None,
            modifiers: None,
        }],
    });
    assert_eq!(events(tree, "main.rs", false), vec![c_event]);
    let with_tests = events(tree, "main.rs", true);
    assert_eq!(with_tests.len(), 3);
    match &with_tests[0] {
        Event::TraitImpl(c) => {
            assert_eq!(c.target_type, "A");
            assert_eq!(c.functions.len(), 1);
        },
        other => panic!("unexpected {other:?}"),
    }
}

#[test]
fn empty_entry_file() {
    fn tree(p: &str) -> Option<SourceFile> {
        match p {
            "main.rs" => Some(SourceFile::Parsed(vec![])),
            _ => None,
        }
    }
    assert_eq!(events(tree, "main.rs", false), vec![]);
}

#[test]
fn missing_entry_file_named_in_error() {
    fn tree(_: &str) -> Option<SourceFile> {
        None
    }
    let (r, _) = drive(tree, "invalid/path.rs", false);
    assert_eq!(r, Visit::Failed(TraverseError::ReadError { path: s("invalid/path.rs"), reason: None }));
}

#[test]
fn unreadable_module_file() {
    fn tree(p: &str) -> Option<SourceFile> {
        match p {
            "main.rs" => Some(SourceFile::Parsed(vec![module("a", vec![], None)])),
            "a.rs" => Some(SourceFile::Unreadable(s("permission denied"))),
            _ => None,
        }
    }
    let (r, _) = drive(tree, "main.rs", false);
    assert_eq!(
        r,
        Visit::Failed(TraverseError::ReadError { path: s("a.rs"), reason: Some(s("permission denied")) })
    );
}

#[test]
fn unparsable_module_file() {
    fn tree(p: &str) -> Option<SourceFile> {
        match p {
            "main.rs" => Some(SourceFile::Parsed(vec![strukt("Before", vec![], &[]), module("a", vec![], None)])),
            "a/mod.rs" => Some(SourceFile::Unparsable(s("expected item"))),
            _ => None,
        }
    }
    let (r, _) = drive(tree, "main.rs", false);
    assert_eq!(r, Visit::Failed(TraverseError::ParseError { path: s("a/mod.rs"), reason: s("expected item") }));
}

#[test]
fn module_cycle_is_reported() {
    fn tree(p: &str) -> Option<SourceFile> {
        match p {
            "main.rs" => Some(SourceFile::Parsed(vec![module("a", vec![], None)])),
            "a.rs" => Some(SourceFile::Parsed(vec![func("f", vec![]), module("a", vec![], None)])),
            _ => None,
        }
    }
    let (r, _) = drive(tree, "main.rs", false);
    assert_eq!(r, Visit::Failed(TraverseError::ModuleCycle { path: s("a.rs") }));
}

#[test]
fn function_signature_text() {
    let d = FnDecl {
        name: s("run"),
        attrs: vec![],
        is_public: true,
        is_async: true,
        is_const: false,
        is_unsafe: true,
        params: vec![s("&self"), s("x: u32"), s("y: &str")],
        return_type: Some(s("Result<(), E>")),
    };
    let c = FunctionContext::new(&d);
    assert_eq!(c.name, "run");
    assert_eq!(c.params, "&self, x: u32, y: &str");
    assert_eq!(c.return_type, Some(s("Result<(), E>")));
    assert_eq!(c.visibility, Some(s("pub")));
    assert_eq!(c.modifiers, Some(s("async unsafe")));

    let all = FnDecl { is_const: true, params: vec![s("a: i8")], ..d };
    let c = FunctionContext::new(&all);
    assert_eq!(c.params, "a: i8");
    assert_eq!(c.modifiers, Some(s("async const unsafe")));

    let plain = FunctionContext::new(&fn_decl("p", vec![]));
    assert_eq!(plain.params, "");
    assert_eq!(plain.visibility, None);
    assert_eq!(plain.modifiers, None);
}

#[test]
fn impl_context_keeps_members_in_order() {
    let d = ImplDecl {
        target_type: s("Vec<T>"),
        trait_name: Some(s("Clone")),
        generics: Some(s("<T: Clone>")),
        attrs: vec![],
        functions: vec![fn_decl("a", vec![]), fn_decl("t", vec![test_attr()]), fn_decl("b", vec![])],
    };
    let c = ImplContext::new(&d, false, false);
    assert_eq!(c.trait_name, Some(s("Clone")));
    assert_eq!(c.generics, Some(s("<T: Clone>")));
    let names: Vec<&str> = c.functions.iter().map(|f| f.name.as_str()).collect();
    assert_eq!(names, vec!["a", "b"]);
    assert_eq!(ImplContext::new(&d, true, false).functions.len(), 3);
    assert_eq!(ImplContext::new(&d, false, true).functions.len(), 0);
}
