//! What holds of every traversal.

use crate::decl::{marks_test, own_test, Decl, Kind};
use crate::items::{impl_view, member_entry, skipped};
use crate::logic::{
    dir_candidate, exists_in, flat_candidate, flat_sections, item_event, load, module_walk,
    modules_walk, opt_seq, resolve_spec, scope_walk, section, visit_spec, EventView,
    ItemVisitor, ResolutionView, SourceFile, VisitView,
};
use crate::text::parent_dir;
use vstd::prelude::*;

verus! {

/// Determinism: two engines that hold the same files, whatever order they
/// were recorded in, give the same outcome for the same entry and policy.
pub proof fn lemma_visit_deterministic(
    a: ItemVisitor,
    b: ItemVisitor,
    entry: Seq<char>,
    include_tests: bool,
)
    requires
        a.wf(),
        b.wf(),
        a.table() == b.table(),
    ensures
        visit_spec(a.table(), include_tests, entry) == visit_spec(b.table(), include_tests, entry),
{
}

/// The section an event belongs to: structs, enums, functions, impl blocks,
/// then modules.
pub open spec fn rank(e: EventView) -> int {
    match e {
        EventView::Struct(_) => 0,
        EventView::Enum(_) => 1,
        EventView::Function(_) => 2,
        EventView::TraitImpl(_) => 3,
        EventView::BeginModule(_) => 4,
        EventView::EndModule(_) => 4,
    }
}

pub open spec fn kind_rank(k: Kind) -> int {
    match k {
        Kind::Struct => 0,
        Kind::Enum => 1,
        Kind::Function => 2,
        Kind::TraitImpl => 3,
        _ => 4,
    }
}

proof fn lemma_section_rank(include_tests: bool, in_test: bool, items: Seq<Decl>, k: Kind)
    requires
        kind_rank(k) < 4,
    ensures
        forall|i: int|
            0 <= i < section(include_tests, in_test, items, k).len() ==> rank(
                #[trigger] section(include_tests, in_test, items, k)[i],
            ) == kind_rank(k),
    decreases items.len(),
{
    if items.len() > 0 {
        let rest = items.drop_last();
        lemma_section_rank(include_tests, in_test, rest, k);
        let whole = section(include_tests, in_test, items, k);
        let part = section(include_tests, in_test, rest, k);
        let last = item_event(include_tests, in_test, items.last(), k);
        assert(whole == part + opt_seq(last));
        if let Some(e) = last {
            assert(rank(e) == kind_rank(k));
        }
        assert forall|i: int| 0 <= i < whole.len() implies rank(#[trigger] whole[i]) == kind_rank(
            k,
        ) by {
            if i < part.len() {
                assert(whole[i] == part[i]);
            }
        }
    }
}

proof fn lemma_module_walk_shape(
    t: Map<Seq<char>, SourceFile>,
    include_tests: bool,
    dir: Seq<char>,
    in_test: bool,
    budget: nat,
    d: Decl,
)
    ensures
        module_walk(t, include_tests, dir, in_test, budget, d) matches VisitView::Complete(es)
            ==> es.len() == 0 || es[0] is BeginModule,
{
}

proof fn lemma_modules_walk_shape(
    t: Map<Seq<char>, SourceFile>,
    include_tests: bool,
    dir: Seq<char>,
    in_test: bool,
    budget: nat,
    items: Seq<Decl>,
    i: nat,
)
    ensures
        modules_walk(t, include_tests, dir, in_test, budget, items, i) matches VisitView::Complete(
            es,
        ) ==> es.len() == 0 || es[0] is BeginModule,
    decreases items.len() - i,
{
    if i < items.len() {
        lemma_module_walk_shape(t, include_tests, dir, in_test, budget, items[i as int]);
        lemma_modules_walk_shape(t, include_tests, dir, in_test, budget, items, i + 1);
    }
}

/// Section order: in the events of a scope, the events of its structs come
/// first, then those of its enums, functions and impl blocks, each group in
/// source order; its modules follow, each opening with a begin event.
pub proof fn lemma_section_order(
    t: Map<Seq<char>, SourceFile>,
    include_tests: bool,
    dir: Seq<char>,
    in_test: bool,
    budget: nat,
    items: Seq<Decl>,
)
    ensures
        scope_walk(t, include_tests, dir, in_test, budget, items) matches VisitView::Complete(es)
            ==> {
            let n = flat_sections(include_tests, in_test, items).len() as int;
            &&& n <= es.len()
            &&& es.subrange(0, n) == section(include_tests, in_test, items, Kind::Struct)
                + section(include_tests, in_test, items, Kind::Enum) + section(
                include_tests,
                in_test,
                items,
                Kind::Function,
            ) + section(include_tests, in_test, items, Kind::TraitImpl)
            &&& forall|i: int, j: int| 0 <= i < j < n ==> rank(es[i]) <= rank(es[j])
            &&& forall|i: int| 0 <= i < n ==> rank(#[trigger] es[i]) < 4
            &&& n < es.len() ==> es[n] is BeginModule
        },
{
    let s0 = section(include_tests, in_test, items, Kind::Struct);
    let s1 = section(include_tests, in_test, items, Kind::Enum);
    let s2 = section(include_tests, in_test, items, Kind::Function);
    let s3 = section(include_tests, in_test, items, Kind::TraitImpl);
    let flat = flat_sections(include_tests, in_test, items);
    let mods = modules_walk(t, include_tests, dir, in_test, budget, items, 0);
    if let VisitView::Complete(ms) = mods {
        let es = flat + ms;
        let n = flat.len() as int;
        lemma_section_rank(include_tests, in_test, items, Kind::Struct);
        lemma_section_rank(include_tests, in_test, items, Kind::Enum);
        lemma_section_rank(include_tests, in_test, items, Kind::Function);
        lemma_section_rank(include_tests, in_test, items, Kind::TraitImpl);
        lemma_modules_walk_shape(t, include_tests, dir, in_test, budget, items, 0);
        assert(es.subrange(0, n) =~= flat);
        assert forall|i: int| 0 <= i < n implies {
            &&& rank(#[trigger] es[i]) < 4
            &&& (i < s0.len() ==> rank(es[i]) == 0)
            &&& (s0.len() <= i < s0.len() + s1.len() ==> rank(es[i]) == 1)
            &&& (s0.len() + s1.len() <= i < s0.len() + s1.len() + s2.len() ==> rank(es[i]) == 2)
            &&& (s0.len() + s1.len() + s2.len() <= i ==> rank(es[i]) == 3)
        } by {
            assert(es[i] == flat[i]);
            if i < s0.len() {
                assert(flat[i] == s0[i]);
            } else if i < s0.len() + s1.len() {
                assert(flat[i] == s1[i - s0.len()]);
            } else if i < s0.len() + s1.len() + s2.len() {
                assert(flat[i] == s2[i - s0.len() - s1.len()]);
            } else {
                assert(flat[i] == s3[i - s0.len() - s1.len() - s2.len()]);
            }
        }
        if n < es.len() {
            assert(es[n] == ms[0]);
        }
    }
}

pub open spec fn all_left_out(include_tests: bool, in_test: bool, items: Seq<Decl>) -> bool {
    forall|i: int|
        0 <= i < items.len() ==> skipped(include_tests, in_test || own_test(#[trigger] items[i]))
}

proof fn lemma_silent_sections(include_tests: bool, in_test: bool, items: Seq<Decl>, k: Kind)
    requires
        all_left_out(include_tests, in_test, items),
    ensures
        section(include_tests, in_test, items, k) == Seq::<EventView>::empty(),
    decreases items.len(),
{
    if items.len() > 0 {
        let rest = items.drop_last();
        assert forall|i: int| 0 <= i < rest.len() implies skipped(
            include_tests,
            in_test || own_test(#[trigger] rest[i]),
        ) by {
            assert(rest[i] == items[i]);
        }
        assert(all_left_out(include_tests, in_test, rest));
        lemma_silent_sections(include_tests, in_test, rest, k);
        assert(skipped(include_tests, in_test || own_test(items[items.len() - 1])));
    }
}

proof fn lemma_silent_modules(
    t: Map<Seq<char>, SourceFile>,
    include_tests: bool,
    dir: Seq<char>,
    in_test: bool,
    budget: nat,
    items: Seq<Decl>,
    i: nat,
)
    requires
        all_left_out(include_tests, in_test, items),
    ensures
        modules_walk(t, include_tests, dir, in_test, budget, items, i) == VisitView::Complete(
            Seq::empty(),
        ),
    decreases items.len() - i,
{
    if i < items.len() {
        assert(skipped(include_tests, in_test || own_test(items[i as int])));
        assert(module_walk(t, include_tests, dir, in_test, budget, items[i as int])
            == VisitView::Complete(Seq::<EventView>::empty()));
        lemma_silent_modules(t, include_tests, dir, in_test, budget, items, i + 1);
        assert(Seq::<EventView>::empty() + Seq::<EventView>::empty() =~= Seq::<EventView>::empty());
    }
}

/// A scope in which every declaration is left out by the test policy emits
/// nothing, needs no file and cannot fail.
pub proof fn lemma_silent_scope(
    t: Map<Seq<char>, SourceFile>,
    include_tests: bool,
    dir: Seq<char>,
    in_test: bool,
    budget: nat,
    items: Seq<Decl>,
)
    requires
        all_left_out(include_tests, in_test, items),
    ensures
        scope_walk(t, include_tests, dir, in_test, budget, items) == VisitView::Complete(
            Seq::empty(),
        ),
{
    lemma_silent_sections(include_tests, in_test, items, Kind::Struct);
    lemma_silent_sections(include_tests, in_test, items, Kind::Enum);
    lemma_silent_sections(include_tests, in_test, items, Kind::Function);
    lemma_silent_sections(include_tests, in_test, items, Kind::TraitImpl);
    lemma_silent_modules(t, include_tests, dir, in_test, budget, items, 0);
    assert(flat_sections(include_tests, in_test, items) + Seq::<EventView>::empty()
        =~= Seq::<EventView>::empty());
}

/// Test exclusion: with tests excluded, a declaration that is test-only by
/// itself or by standing in a test-only scope emits no event, in any
/// section, and nothing of what it contains is visited.
pub proof fn lemma_test_item_silent(
    t: Map<Seq<char>, SourceFile>,
    dir: Seq<char>,
    in_test: bool,
    budget: nat,
    d: Decl,
    k: Kind,
)
    requires
        in_test || own_test(d),
    ensures
        item_event(false, in_test, d, k) is None,
        module_walk(t, false, dir, in_test, budget, d) == VisitView::Complete(Seq::empty()),
{
}

/// Test exclusion, transitively: with tests excluded, a whole test-only scope
/// (such as the body of a module named `tests`) emits nothing.
pub proof fn lemma_test_scope_silent(
    t: Map<Seq<char>, SourceFile>,
    dir: Seq<char>,
    budget: nat,
    items: Seq<Decl>,
)
    ensures
        scope_walk(t, false, dir, true, budget, items) == VisitView::Complete(Seq::empty()),
{
    lemma_silent_scope(t, false, dir, true, budget, items);
}

proof fn lemma_item_event_flag(a: bool, b: bool, d: Decl, k: Kind)
    ensures
        item_event(true, a, d, k) == item_event(true, b, d, k),
{
    if let Decl::TraitImpl(im) = d {
        let fa = |f: crate::decl::FnDecl| member_entry(true, a || own_test(d), f);
        let fb = |f: crate::decl::FnDecl| member_entry(true, b || own_test(d), f);
        assert(fa =~= fb);
        assert(impl_view(im, true, a || own_test(d)) == impl_view(im, true, b || own_test(d)));
    }
}

proof fn lemma_flat_flag(a: bool, b: bool, items: Seq<Decl>)
    ensures
        flat_sections(true, a, items) == flat_sections(true, b, items),
{
    assert forall|k: Kind| section(true, a, items, k) == section(true, b, items, k) by {
        let fa = |d: Decl| item_event(true, a, d, k);
        let fb = |d: Decl| item_event(true, b, d, k);
        assert forall|d: Decl| #[trigger] fa(d) == fb(d) by {
            lemma_item_event_flag(a, b, d, k);
        }
        assert(fa =~= fb);
    }
}

proof fn lemma_scope_flag(
    t: Map<Seq<char>, SourceFile>,
    dir: Seq<char>,
    a: bool,
    b: bool,
    budget: nat,
    items: Seq<Decl>,
)
    ensures
        scope_walk(t, true, dir, a, budget, items) == scope_walk(t, true, dir, b, budget, items),
    decreases budget, items, items.len() + 1,
{
    lemma_flat_flag(a, b, items);
    lemma_modules_flag(t, dir, a, b, budget, items, 0);
}

proof fn lemma_modules_flag(
    t: Map<Seq<char>, SourceFile>,
    dir: Seq<char>,
    a: bool,
    b: bool,
    budget: nat,
    items: Seq<Decl>,
    i: nat,
)
    ensures
        modules_walk(t, true, dir, a, budget, items, i) == modules_walk(
            t,
            true,
            dir,
            b,
            budget,
            items,
            i,
        ),
    decreases budget, items, items.len() - i,
{
    if i < items.len() {
        lemma_module_flag(t, dir, a, b, budget, items[i as int]);
        lemma_modules_flag(t, dir, a, b, budget, items, i + 1);
    }
}

proof fn lemma_module_flag(
    t: Map<Seq<char>, SourceFile>,
    dir: Seq<char>,
    a: bool,
    b: bool,
    budget: nat,
    d: Decl,
)
    ensures
        module_walk(t, true, dir, a, budget, d) == module_walk(t, true, dir, b, budget, d),
    decreases budget, d, 0int,
{
    if let Decl::Module(m) = d {
        let ta = a || own_test(d);
        let tb = b || own_test(d);
        match m.content {
            Some(v) => {
                lemma_scope_flag(t, dir, ta, tb, budget, v@);
            },
            None => {
                if let ResolutionView::Found(p) = resolve_spec(t, dir, m.name@) {
                    if let Ok(decls) = load(t, p) {
                        if budget > 0 {
                            lemma_scope_flag(t, parent_dir(p), ta, tb, (budget - 1) as nat, decls);
                        }
                    }
                }
            },
        }
    }
}

/// Test exclusion, the other way: with tests included, a scope emits the same
/// events, and stops the same way, whether or not it is test-only; test-only
/// declarations are drawn like all others.
pub proof fn lemma_included_tests_drawn_alike(
    t: Map<Seq<char>, SourceFile>,
    dir: Seq<char>,
    budget: nat,
    items: Seq<Decl>,
)
    ensures
        scope_walk(t, true, dir, true, budget, items) == scope_walk(
            t,
            true,
            dir,
            false,
            budget,
            items,
        ),
{
    lemma_scope_flag(t, dir, true, false, budget, items);
}

/// Empty-module suppression: with tests excluded, a module whose declarations
/// are all test-only emits no begin or end event, nor anything else.
pub proof fn lemma_test_only_module_suppressed(
    t: Map<Seq<char>, SourceFile>,
    dir: Seq<char>,
    in_test: bool,
    budget: nat,
    d: Decl,
)
    requires
        d matches Decl::Module(m) && match m.content {
            Some(v) => forall|i: int| 0 <= i < v@.len() ==> own_test(#[trigger] v@[i]),
            None => resolve_spec(t, dir, m.name@) matches ResolutionView::Found(p) && load(t, p)
                matches Ok(decls) && budget > 0 && forall|i: int|
                0 <= i < decls.len() ==> own_test(#[trigger] decls[i]),
        },
    ensures
        module_walk(t, false, dir, in_test, budget, d) == VisitView::Complete(Seq::empty()),
{
    if let Decl::Module(m) = d {
        let test = in_test || own_test(d);
        match m.content {
            Some(v) => {
                lemma_silent_scope(t, false, dir, test, budget, v@);
            },
            None => {
                if let ResolutionView::Found(p) = resolve_spec(t, dir, m.name@) {
                    if let Ok(decls) = load(t, p) {
                        lemma_silent_scope(t, false, parent_dir(p), test, (budget - 1) as nat, decls);
                    }
                }
            },
        }
    }
}

/// Resolution precedence: when both `<name>.rs` and `<name>/mod.rs` exist,
/// the module resolves to `<name>.rs`.
pub proof fn lemma_flat_file_first(t: Map<Seq<char>, SourceFile>, dir: Seq<char>, name: Seq<char>)
    requires
        exists_in(t, flat_candidate(dir, name)),
        exists_in(t, dir_candidate(dir, name)),
    ensures
        resolve_spec(t, dir, name) == ResolutionView::Found(flat_candidate(dir, name)),
{
}

/// Impl member filtering: with tests excluded, an impl block whose only member
/// function is test-only emits no event.
pub proof fn lemma_test_only_impl_dropped(in_test: bool, d: Decl, k: Kind)
    requires
        d matches Decl::TraitImpl(im) && im.functions@.len() == 1 && marks_test(
            im.functions@[0].attrs@,
        ),
    ensures
        item_event(false, in_test, d, k) is None,
{
    if let Decl::TraitImpl(im) = d {
        let fs = im.functions@;
        let f = |x: crate::decl::FnDecl| member_entry(false, in_test || own_test(d), x);
        assert(fs.drop_last() =~= Seq::<crate::decl::FnDecl>::empty());
        assert(fs.drop_last().filter_map(f) =~= Seq::<crate::items::FnView>::empty());
        assert(f(fs.last()) is None);
        assert(fs.filter_map(f) =~= Seq::<crate::items::FnView>::empty());
    }
}

proof fn lemma_scope_need(
    t: Map<Seq<char>, SourceFile>,
    include_tests: bool,
    dir: Seq<char>,
    in_test: bool,
    budget: nat,
    items: Seq<Decl>,
)
    ensures
        scope_walk(t, include_tests, dir, in_test, budget, items) matches VisitView::NeedFile(p)
            ==> !t.contains_key(p),
    decreases budget, items, items.len() + 1,
{
    lemma_modules_need(t, include_tests, dir, in_test, budget, items, 0);
}

proof fn lemma_modules_need(
    t: Map<Seq<char>, SourceFile>,
    include_tests: bool,
    dir: Seq<char>,
    in_test: bool,
    budget: nat,
    items: Seq<Decl>,
    i: nat,
)
    ensures
        modules_walk(t, include_tests, dir, in_test, budget, items, i) matches VisitView::NeedFile(
            p,
        ) ==> !t.contains_key(p),
    decreases budget, items, items.len() - i,
{
    if i < items.len() {
        lemma_module_need(t, include_tests, dir, in_test, budget, items[i as int]);
        lemma_modules_need(t, include_tests, dir, in_test, budget, items, i + 1);
    }
}

proof fn lemma_module_need(
    t: Map<Seq<char>, SourceFile>,
    include_tests: bool,
    dir: Seq<char>,
    in_test: bool,
    budget: nat,
    d: Decl,
)
    ensures
        module_walk(t, include_tests, dir, in_test, budget, d) matches VisitView::NeedFile(p)
            ==> !t.contains_key(p),
    decreases budget, d, 0int,
{
    if let Decl::Module(m) = d {
        let test = in_test || own_test(d);
        match m.content {
            Some(v) => {
                lemma_scope_need(t, include_tests, dir, test, budget, v@);
            },
            None => {
                if let ResolutionView::Found(p) = resolve_spec(t, dir, m.name@) {
                    if let Ok(decls) = load(t, p) {
                        if budget > 0 {
                            lemma_scope_need(
                                t,
                                include_tests,
                                parent_dir(p),
                                test,
                                (budget - 1) as nat,
                                decls,
                            );
                        }
                    }
                }
            },
        }
    }
}

/// Progress: a visit only ever asks for a file that is not recorded yet, so
/// each file recorded in answer grows the set of recorded files.
pub proof fn lemma_need_is_unrecorded(
    t: Map<Seq<char>, SourceFile>,
    include_tests: bool,
    entry: Seq<char>,
)
    ensures
        visit_spec(t, include_tests, entry) matches VisitView::NeedFile(p) ==> !t.contains_key(p),
{
    if let Ok(decls) = load(t, entry) {
        lemma_scope_need(
            t,
            include_tests,
            parent_dir(entry),
            false,
            (t.dom().len() - 1) as nat,
            decls,
        );
    }
}

} // verus!
