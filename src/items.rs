//! What a renderer is handed for each kept declaration.

use crate::decl::{marks_test, EnumDecl, Field, FnDecl, ImplDecl, StructDecl, Variant};
use crate::decl::has_test_attribute;
use crate::text::{join_with, joined, opt_view, views};
use vstd::prelude::*;

verus! {

/// A struct field: its name (or positional index) and the text of its type.
#[derive(Clone, Debug, PartialEq, Eq)]
pub struct StructFieldContext {
    pub name: String,
    pub type_: String,
}

#[derive(Clone, Debug, PartialEq, Eq)]
pub struct StructContext {
    pub name: String,
    pub public_fields: Vec<StructFieldContext>,
    pub private_fields: Vec<StructFieldContext>,
}

#[derive(Clone, Debug, PartialEq, Eq)]
pub struct EnumVariantContext {
    pub name: String,
    pub data: Option<String>,
}

#[derive(Clone, Debug, PartialEq, Eq)]
pub struct EnumContext {
    pub name: String,
    pub variants: Vec<EnumVariantContext>,
}

/// A function signature: `params` is the parameter list as one text,
/// `visibility` is `pub` for public functions, and `modifiers` joins the
/// present ones of `async`, `const`, `unsafe`, in that order.
#[derive(Clone, Debug, PartialEq, Eq)]
pub struct FunctionContext {
    pub name: String,
    pub params: String,
    pub return_type: Option<String>,
    pub visibility: Option<String>,
    pub modifiers: Option<String>,
}

/// An `impl` block with the member functions that were kept.
#[derive(Clone, Debug, PartialEq, Eq)]
pub struct ImplContext {
    pub target_type: String,
    pub trait_name: Option<String>,
    pub generics: Option<String>,
    pub functions: Vec<FunctionContext>,
}

pub struct StructView {
    pub name: Seq<char>,
    pub public_fields: Seq<(Seq<char>, Seq<char>)>,
    pub private_fields: Seq<(Seq<char>, Seq<char>)>,
}

pub struct EnumView {
    pub name: Seq<char>,
    pub variants: Seq<(Seq<char>, Option<Seq<char>>)>,
}

pub struct FnView {
    pub name: Seq<char>,
    pub params: Seq<char>,
    pub return_type: Option<Seq<char>>,
    pub visibility: Option<Seq<char>>,
    pub modifiers: Option<Seq<char>>,
}

pub struct ImplView {
    pub target_type: Seq<char>,
    pub trait_name: Option<Seq<char>>,
    pub generics: Option<Seq<char>>,
    pub functions: Seq<FnView>,
}

impl View for StructFieldContext {
    type V = (Seq<char>, Seq<char>);

    open spec fn view(&self) -> (Seq<char>, Seq<char>) {
        (self.name@, self.type_@)
    }
}

impl View for StructContext {
    type V = StructView;

    open spec fn view(&self) -> StructView {
        StructView {
            name: self.name@,
            public_fields: self.public_fields@.map_values(|f: StructFieldContext| f@),
            private_fields: self.private_fields@.map_values(|f: StructFieldContext| f@),
        }
    }
}

impl View for EnumVariantContext {
    type V = (Seq<char>, Option<Seq<char>>);

    open spec fn view(&self) -> (Seq<char>, Option<Seq<char>>) {
        (self.name@, opt_view(self.data))
    }
}

impl View for EnumContext {
    type V = EnumView;

    open spec fn view(&self) -> EnumView {
        EnumView {
            name: self.name@,
            variants: self.variants@.map_values(|v: EnumVariantContext| v@),
        }
    }
}

impl View for FunctionContext {
    type V = FnView;

    open spec fn view(&self) -> FnView {
        FnView {
            name: self.name@,
            params: self.params@,
            return_type: opt_view(self.return_type),
            visibility: opt_view(self.visibility),
            modifiers: opt_view(self.modifiers),
        }
    }
}

impl View for ImplContext {
    type V = ImplView;

    open spec fn view(&self) -> ImplView {
        ImplView {
            target_type: self.target_type@,
            trait_name: opt_view(self.trait_name),
            generics: opt_view(self.generics),
            functions: self.functions@.map_values(|f: FunctionContext| f@),
        }
    }
}

/// A declaration that is test-only (`test`) is left out unless tests are included.
pub open spec fn skipped(include_tests: bool, test: bool) -> bool {
    !include_tests && test
}

/// The field as drawn, if it belongs to the public (or private) list.
pub open spec fn field_entry(f: Field, public: bool) -> Option<(Seq<char>, Seq<char>)> {
    if f.is_public == public {
        Some((f.name@, f.type_text@))
    } else {
        None
    }
}

pub open spec fn struct_view(d: StructDecl) -> StructView {
    StructView {
        name: d.name@,
        public_fields: d.fields@.filter_map(|f: Field| field_entry(f, true)),
        private_fields: d.fields@.filter_map(|f: Field| field_entry(f, false)),
    }
}

pub open spec fn enum_view(d: EnumDecl) -> EnumView {
    EnumView {
        name: d.name@,
        variants: d.variants@.map_values(|v: Variant| (v.name@, opt_view(v.data))),
    }
}

pub open spec fn word_pub() -> Seq<char> {
    seq!['p', 'u', 'b']
}

pub open spec fn word_async() -> Seq<char> {
    seq!['a', 's', 'y', 'n', 'c']
}

pub open spec fn word_const() -> Seq<char> {
    seq!['c', 'o', 'n', 's', 't']
}

pub open spec fn word_unsafe() -> Seq<char> {
    seq!['u', 'n', 's', 'a', 'f', 'e']
}

/// The modifiers a function carries, in the fixed order async, const, unsafe.
pub open spec fn modifier_words(d: FnDecl) -> Seq<Seq<char>> {
    (if d.is_async { seq![word_async()] } else { Seq::empty() }) + (if d.is_const {
        seq![word_const()]
    } else {
        Seq::empty()
    }) + (if d.is_unsafe { seq![word_unsafe()] } else { Seq::empty() })
}

pub open spec fn fn_view(d: FnDecl) -> FnView {
    FnView {
        name: d.name@,
        params: joined(views(d.params@), seq![',', ' ']),
        return_type: opt_view(d.return_type),
        visibility: if d.is_public { Some(word_pub()) } else { None },
        modifiers: if modifier_words(d).len() == 0 {
            None
        } else {
            Some(joined(modifier_words(d), seq![' ']))
        },
    }
}

/// The member function as drawn, unless the test policy leaves it out;
/// `in_test` tells whether the block itself is test-only.
pub open spec fn member_entry(include_tests: bool, in_test: bool, f: FnDecl) -> Option<FnView> {
    if skipped(include_tests, in_test || marks_test(f.attrs@)) {
        None
    } else {
        Some(fn_view(f))
    }
}

pub open spec fn impl_view(d: ImplDecl, include_tests: bool, in_test: bool) -> ImplView {
    ImplView {
        target_type: d.target_type@,
        trait_name: opt_view(d.trait_name),
        generics: opt_view(d.generics),
        functions: d.functions@.filter_map(|f: FnDecl| member_entry(include_tests, in_test, f)),
    }
}

fn copy_opt(o: &Option<String>) -> (r: Option<String>)
    ensures
        opt_view(r) == opt_view(*o),
{
    match o {
        Some(s) => Some(s.clone()),
        None => None,
    }
}

fn fields_of(fields: &Vec<Field>, public: bool) -> (r: Vec<StructFieldContext>)
    ensures
        r@.map_values(|f: StructFieldContext| f@) == fields@.filter_map(
            |f: Field| field_entry(f, public),
        ),
{
    let mut r: Vec<StructFieldContext> = Vec::new();
    let mut i: usize = 0;
    while i < fields.len()
        invariant
            i <= fields@.len(),
            r@.map_values(|f: StructFieldContext| f@) == fields@.subrange(0, i as int).filter_map(
                |f: Field| field_entry(f, public),
            ),
        decreases fields.len() - i,
    {
        let ghost before = r@;
        proof {
            assert(fields@.subrange(0, i + 1).drop_last() =~= fields@.subrange(0, i as int));
        }
        let f = &fields[i];
        if f.is_public == public {
            r.push(StructFieldContext { name: f.name.clone(), type_: f.type_text.clone() });
            assert(r@.map_values(|f: StructFieldContext| f@) =~= before.map_values(
                |f: StructFieldContext| f@,
            ).push((fields@[i as int].name@, fields@[i as int].type_text@)));
        }
        i = i + 1;
    }
    assert(fields@.subrange(0, fields@.len() as int) =~= fields@);
    r
}

impl StructContext {
    /// The struct as drawn: its name, then its public and its private fields,
    /// each list in declaration order.
    pub fn new(d: &StructDecl) -> (r: StructContext)
        ensures
            r@ == struct_view(*d),
    {
        StructContext {
            name: d.name.clone(),
            public_fields: fields_of(&d.fields, true),
            private_fields: fields_of(&d.fields, false),
        }
    }
}

impl EnumContext {
    /// The enum as drawn: its name and its variants in declaration order.
    pub fn new(d: &EnumDecl) -> (r: EnumContext)
        ensures
            r@ == enum_view(*d),
    {
        let mut variants: Vec<EnumVariantContext> = Vec::new();
        let mut i: usize = 0;
        while i < d.variants.len()
            invariant
                i <= d.variants@.len(),
                variants@.map_values(|v: EnumVariantContext| v@) =~= d.variants@.subrange(
                    0,
                    i as int,
                ).map_values(|v: Variant| (v.name@, opt_view(v.data))),
            decreases d.variants.len() - i,
        {
            let ghost before = variants@;
            let v = &d.variants[i];
            variants.push(EnumVariantContext { name: v.name.clone(), data: copy_opt(&v.data) });
            assert(variants@.map_values(|v: EnumVariantContext| v@) =~= before.map_values(
                |v: EnumVariantContext| v@,
            ).push((v.name@, opt_view(v.data))));
            assert(d.variants@.subrange(0, i + 1).map_values(
                |v: Variant| (v.name@, opt_view(v.data)),
            ) =~= d.variants@.subrange(0, i as int).map_values(
                |v: Variant| (v.name@, opt_view(v.data)),
            ).push((v.name@, opt_view(v.data))));
            i = i + 1;
        }
        assert(d.variants@.subrange(0, d.variants@.len() as int) =~= d.variants@);
        EnumContext { name: d.name.clone(), variants }
    }
}

impl FunctionContext {
    /// The signature as drawn: parameters joined by `, `, `pub` for a public
    /// function, and the present modifiers joined by a space.
    pub fn new(d: &FnDecl) -> (r: FunctionContext)
        ensures
            r@ == fn_view(*d),
    {
        proof {
            reveal_strlit(", ");
            reveal_strlit(" ");
            reveal_strlit("pub");
            reveal_strlit("async");
            reveal_strlit("const");
            reveal_strlit("unsafe");
            assert(", "@ =~= seq![',', ' ']);
            assert(" "@ =~= seq![' ']);
            assert("pub"@ =~= word_pub());
            assert("async"@ =~= word_async());
            assert("const"@ =~= word_const());
            assert("unsafe"@ =~= word_unsafe());
        }
        let params = join_with(&d.params, ", ");
        let visibility = if d.is_public {
            Some("pub".to_owned())
        } else {
            None
        };
        let mut words: Vec<String> = Vec::new();
        if d.is_async {
            words.push("async".to_owned());
        }
        if d.is_const {
            words.push("const".to_owned());
        }
        if d.is_unsafe {
            words.push("unsafe".to_owned());
        }
        assert(views(words@) =~= modifier_words(*d));
        let modifiers = if words.len() == 0 {
            None
        } else {
            Some(join_with(&words, " "))
        };
        FunctionContext {
            name: d.name.clone(),
            params,
            return_type: copy_opt(&d.return_type),
            visibility,
            modifiers,
        }
    }
}

impl ImplContext {
    /// The block as drawn, with the member functions that the test policy
    /// keeps, in declaration order; `in_test` tells whether the block itself
    /// stands in a test-only scope or is marked test-only.
    pub fn new(d: &ImplDecl, include_tests: bool, in_test: bool) -> (r: ImplContext)
        ensures
            r@ == impl_view(*d, include_tests, in_test),
    {
        let mut functions: Vec<FunctionContext> = Vec::new();
        let mut i: usize = 0;
        while i < d.functions.len()
            invariant
                i <= d.functions@.len(),
                functions@.map_values(|f: FunctionContext| f@) == d.functions@.subrange(
                    0,
                    i as int,
                ).filter_map(|f: FnDecl| member_entry(include_tests, in_test, f)),
            decreases d.functions.len() - i,
        {
            let ghost before = functions@;
            proof {
                assert(d.functions@.subrange(0, i + 1).drop_last() =~= d.functions@.subrange(
                    0,
                    i as int,
                ));
            }
            let f = &d.functions[i];
            if include_tests || !(in_test || has_test_attribute(&f.attrs)) {
                let c = FunctionContext::new(f);
                functions.push(c);
                assert(functions@.map_values(|f: FunctionContext| f@) =~= before.map_values(
                    |f: FunctionContext| f@,
                ).push(fn_view(d.functions@[i as int])));
            }
            i = i + 1;
        }
        assert(d.functions@.subrange(0, d.functions@.len() as int) =~= d.functions@);
        ImplContext {
            target_type: d.target_type.clone(),
            trait_name: copy_opt(&d.trait_name),
            generics: copy_opt(&d.generics),
            functions,
        }
    }
}

} // verus!
