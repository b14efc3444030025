//! Declarations as the syntax parser hands them over, and their classification.

use crate::text::text_equals;
use vstd::prelude::*;

verus! {

/// One attribute on a declaration, as far as classification reads it.
#[derive(Clone, Debug, PartialEq, Eq)]
pub enum Attribute {
    /// A bare path, as in `#[test]`.
    Word(String),
    /// A path with a parenthesised list, as in `#[cfg(test)]`; each argument
    /// is the text of one top-level entry of the list.
    List(String, Vec<String>),
    /// Any other shape, or one that could not be read.
    Unrecognized,
}

/// A field of a struct: its name (or positional index) and the text of its type.
#[derive(Clone, Debug, PartialEq, Eq)]
pub struct Field {
    pub name: String,
    pub type_text: String,
    pub is_public: bool,
}

/// A variant of an enum, with the text of its data if it carries any.
#[derive(Clone, Debug, PartialEq, Eq)]
pub struct Variant {
    pub name: String,
    pub data: Option<String>,
}

#[derive(Clone, Debug, PartialEq, Eq)]
pub struct StructDecl {
    pub name: String,
    pub attrs: Vec<Attribute>,
    pub fields: Vec<Field>,
}

#[derive(Clone, Debug, PartialEq, Eq)]
pub struct EnumDecl {
    pub name: String,
    pub attrs: Vec<Attribute>,
    pub variants: Vec<Variant>,
}

/// A function's declared shape; `params` holds the source text of each parameter.
#[derive(Clone, Debug, PartialEq, Eq)]
pub struct FnDecl {
    pub name: String,
    pub attrs: Vec<Attribute>,
    pub is_public: bool,
    pub is_async: bool,
    pub is_const: bool,
    pub is_unsafe: bool,
    pub params: Vec<String>,
    pub return_type: Option<String>,
}

/// An `impl` block, inherent or of a trait; only its member functions are kept.
#[derive(Clone, Debug, PartialEq, Eq)]
pub struct ImplDecl {
    pub target_type: String,
    pub trait_name: Option<String>,
    pub generics: Option<String>,
    pub attrs: Vec<Attribute>,
    pub functions: Vec<FnDecl>,
}

/// A module: `content` is `Some` for an inline body, `None` for `mod name;`.
#[derive(Debug, PartialEq, Eq)]
pub struct ModDecl {
    pub name: String,
    pub is_public: bool,
    pub attrs: Vec<Attribute>,
    pub content: Option<Vec<Decl>>,
}

/// One top-level declaration of a source file.
#[derive(Debug, PartialEq, Eq)]
pub enum Decl {
    Struct(StructDecl),
    Enum(EnumDecl),
    Function(FnDecl),
    TraitImpl(ImplDecl),
    Module(ModDecl),
    Other,
}

/// The kind of a declaration; it decides the section the declaration is drawn in.
#[derive(PartialEq, Eq, Structural, Clone, Copy, Debug)]
pub enum Kind {
    Struct,
    Enum,
    Function,
    TraitImpl,
    Module,
    Other,
}

pub open spec fn kind_of(d: Decl) -> Kind {
    match d {
        Decl::Struct(_) => Kind::Struct,
        Decl::Enum(_) => Kind::Enum,
        Decl::Function(_) => Kind::Function,
        Decl::TraitImpl(_) => Kind::TraitImpl,
        Decl::Module(_) => Kind::Module,
        Decl::Other => Kind::Other,
    }
}

pub open spec fn word_test() -> Seq<char> {
    seq!['t', 'e', 's', 't']
}

pub open spec fn word_tests() -> Seq<char> {
    seq!['t', 'e', 's', 't', 's']
}

pub open spec fn word_cfg() -> Seq<char> {
    seq!['c', 'f', 'g']
}

/// `#[test]`, or `#[cfg(..)]` with `test` among its arguments.
pub open spec fn is_test_attr(a: Attribute) -> bool {
    match a {
        Attribute::Word(p) => p@ == word_test(),
        Attribute::List(p, args) => p@ == word_cfg() && exists|i: int|
            0 <= i < args@.len() && (#[trigger] args@[i])@ == word_test(),
        Attribute::Unrecognized => false,
    }
}

/// Some attribute of the list marks its declaration as test-only.
pub open spec fn marks_test(attrs: Seq<Attribute>) -> bool {
    exists|i: int| 0 <= i < attrs.len() && is_test_attr(#[trigger] attrs[i])
}

/// Whether a declaration is test-only by itself: by its attributes, or, for a
/// module, by bearing the name `tests`.
pub open spec fn own_test(d: Decl) -> bool {
    match d {
        Decl::Struct(s) => marks_test(s.attrs@),
        Decl::Enum(e) => marks_test(e.attrs@),
        Decl::Function(f) => marks_test(f.attrs@),
        Decl::TraitImpl(i) => marks_test(i.attrs@),
        Decl::Module(m) => marks_test(m.attrs@) || m.name@ == word_tests(),
        Decl::Other => false,
    }
}

fn lists_test(args: &Vec<String>) -> (r: bool)
    ensures
        r == exists|i: int| 0 <= i < args@.len() && (#[trigger] args@[i])@ == word_test(),
{
    proof {
        reveal_strlit("test");
        assert("test"@ =~= word_test());
    }
    let mut i: usize = 0;
    while i < args.len()
        invariant
            "test"@ == word_test(),
            i <= args@.len(),
            forall|j: int| 0 <= j < i ==> (#[trigger] args@[j])@ != word_test(),
        decreases args.len() - i,
    {
        if text_equals(&args[i], "test") {
            assert((args@[i as int])@ == word_test());
            return true;
        }
        i = i + 1;
    }
    false
}

/// Whether the attribute marks its declaration as test-only.
pub fn is_test_attribute(a: &Attribute) -> (r: bool)
    ensures
        r == is_test_attr(*a),
{
    proof {
        reveal_strlit("test");
        reveal_strlit("cfg");
        assert("test"@ =~= word_test());
        assert("cfg"@ =~= word_cfg());
    }
    match a {
        Attribute::Word(p) => text_equals(p, "test"),
        Attribute::List(p, args) => text_equals(p, "cfg") && lists_test(args),
        Attribute::Unrecognized => false,
    }
}

/// Whether some attribute of the list marks its declaration as test-only.
pub fn has_test_attribute(attrs: &Vec<Attribute>) -> (r: bool)
    ensures
        r == marks_test(attrs@),
{
    let mut i: usize = 0;
    while i < attrs.len()
        invariant
            i <= attrs@.len(),
            forall|j: int| 0 <= j < i ==> !is_test_attr(#[trigger] attrs@[j]),
        decreases attrs.len() - i,
    {
        if is_test_attribute(&attrs[i]) {
            return true;
        }
        i = i + 1;
    }
    false
}

/// The kind of `d`, and whether it is test-only, either by itself or because
/// it stands inside a test-only scope (`in_test`).
pub fn classify(d: &Decl, in_test: bool) -> (r: (Kind, bool))
    ensures
        r.0 == kind_of(*d),
        r.1 == (in_test || own_test(*d)),
{
    let (kind, own) = match d {
        Decl::Struct(s) => (Kind::Struct, has_test_attribute(&s.attrs)),
        Decl::Enum(e) => (Kind::Enum, has_test_attribute(&e.attrs)),
        Decl::Function(f) => (Kind::Function, has_test_attribute(&f.attrs)),
        Decl::TraitImpl(i) => (Kind::TraitImpl, has_test_attribute(&i.attrs)),
        Decl::Module(m) => {
            proof {
                reveal_strlit("tests");
                assert("tests"@ =~= word_tests());
            }
            (Kind::Module, has_test_attribute(&m.attrs) || text_equals(&m.name, "tests"))
        },
        Decl::Other => (Kind::Other, false),
    };
    (kind, in_test || own)
}

} // verus!
