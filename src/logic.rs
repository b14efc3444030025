//! The traversal engine: module resolution over the files recorded so far, and
//! the walk that turns declarations into an ordered stream of renderer events.
//!
//! The engine reads nothing from disk. [`ItemVisitor::visit_file`] either
//! finishes, fails, or names the one file it needs next; the caller records
//! that file (its declarations, or why it could not be had) and asks again.

use crate::decl::{classify, kind_of, own_test, Decl, Kind};
use crate::items::{
    enum_view, fn_view, impl_view, skipped, struct_view, EnumContext, EnumView, FnView,
    FunctionContext, ImplContext, ImplView, StructContext, StructView,
};
use crate::text::{join_path, join_path_of, opt_view, parent_dir, parent_dir_of};
use vstd::prelude::*;

verus! {

/// What became of a file the engine asked for.
#[derive(Debug, PartialEq, Eq)]
pub enum SourceFile {
    /// No file exists at the path.
    Missing,
    /// The file exists but could not be read; the text says why.
    Unreadable(String),
    /// The file was read but is not valid source; the text says why.
    Unparsable(String),
    /// The file's top-level declarations, in source order.
    Parsed(Vec<Decl>),
}

/// One event of the stream a renderer consumes.
#[derive(Clone, Debug, PartialEq, Eq)]
pub enum Event {
    BeginModule(String),
    EndModule(String),
    Struct(StructContext),
    Enum(EnumContext),
    Function(FunctionContext),
    TraitImpl(ImplContext),
}

pub enum EventView {
    BeginModule(Seq<char>),
    EndModule(Seq<char>),
    Struct(StructView),
    Enum(EnumView),
    Function(FnView),
    TraitImpl(ImplView),
}

impl View for Event {
    type V = EventView;

    open spec fn view(&self) -> EventView {
        match self {
            Event::BeginModule(n) => EventView::BeginModule(n@),
            Event::EndModule(n) => EventView::EndModule(n@),
            Event::Struct(c) => EventView::Struct(c@),
            Event::Enum(c) => EventView::Enum(c@),
            Event::Function(c) => EventView::Function(c@),
            Event::TraitImpl(c) => EventView::TraitImpl(c@),
        }
    }
}

pub open spec fn events_view(s: Seq<Event>) -> Seq<EventView> {
    s.map_values(|e: Event| e@)
}

/// Why a traversal stopped.
#[derive(Clone, Debug, PartialEq, Eq)]
pub enum TraverseError {
    /// The file could not be read; `reason` is `None` when it does not exist.
    ReadError { path: String, reason: Option<String> },
    /// The file is not valid source.
    ParseError { path: String, reason: String },
    /// Neither file that could hold the module exists.
    ModuleNotFound { module: String, flat_candidate: String, dir_candidate: String },
    /// The file would be entered again below itself.
    ModuleCycle { path: String },
}

pub enum ErrorView {
    ReadError { path: Seq<char>, reason: Option<Seq<char>> },
    ParseError { path: Seq<char>, reason: Seq<char> },
    ModuleNotFound { module: Seq<char>, flat_candidate: Seq<char>, dir_candidate: Seq<char> },
    ModuleCycle { path: Seq<char> },
}

impl View for TraverseError {
    type V = ErrorView;

    open spec fn view(&self) -> ErrorView {
        match self {
            TraverseError::ReadError { path, reason } => ErrorView::ReadError {
                path: path@,
                reason: opt_view(*reason),
            },
            TraverseError::ParseError { path, reason } => ErrorView::ParseError {
                path: path@,
                reason: reason@,
            },
            TraverseError::ModuleNotFound { module, flat_candidate, dir_candidate } =>
                ErrorView::ModuleNotFound {
                module: module@,
                flat_candidate: flat_candidate@,
                dir_candidate: dir_candidate@,
            },
            TraverseError::ModuleCycle { path } => ErrorView::ModuleCycle { path: path@ },
        }
    }
}

/// The outcome of a visit.
#[derive(Clone, Debug, PartialEq, Eq)]
pub enum Visit {
    /// The whole event stream.
    Complete(Vec<Event>),
    /// The traversal stopped on an error.
    Failed(TraverseError),
    /// The file at this path must be recorded before the visit can go on.
    NeedFile(String),
}

pub enum VisitView {
    Complete(Seq<EventView>),
    Failed(ErrorView),
    NeedFile(Seq<char>),
}

impl View for Visit {
    type V = VisitView;

    open spec fn view(&self) -> VisitView {
        match self {
            Visit::Complete(v) => VisitView::Complete(events_view(v@)),
            Visit::Failed(e) => VisitView::Failed(e@),
            Visit::NeedFile(p) => VisitView::NeedFile(p@),
        }
    }
}

/// Where an out-of-line module lives, as far as the recorded files tell.
#[derive(Clone, Debug, PartialEq, Eq)]
pub enum Resolution {
    /// The module's file.
    Found(String),
    /// Neither candidate exists; both are named.
    NotFound { flat_candidate: String, dir_candidate: String },
    /// This candidate must be recorded before the module can be resolved.
    Pending(String),
}

pub enum ResolutionView {
    Found(Seq<char>),
    NotFound { flat_candidate: Seq<char>, dir_candidate: Seq<char> },
    Pending(Seq<char>),
}

impl View for Resolution {
    type V = ResolutionView;

    open spec fn view(&self) -> ResolutionView {
        match self {
            Resolution::Found(p) => ResolutionView::Found(p@),
            Resolution::NotFound { flat_candidate, dir_candidate } => ResolutionView::NotFound {
                flat_candidate: flat_candidate@,
                dir_candidate: dir_candidate@,
            },
            Resolution::Pending(p) => ResolutionView::Pending(p@),
        }
    }
}

/// The files recorded so far, by path; a later entry for a path replaces an earlier one.
pub open spec fn table_of(entries: Seq<(String, SourceFile)>) -> Map<Seq<char>, SourceFile>
    decreases entries.len(),
{
    if entries.len() == 0 {
        Map::empty()
    } else {
        table_of(entries.drop_last()).insert(entries.last().0@, entries.last().1)
    }
}

pub open spec fn keys_distinct(entries: Seq<(String, SourceFile)>) -> bool {
    forall|i: int, j: int|
        0 <= i < j < entries.len() ==> (#[trigger] entries[i]).0@ != (#[trigger] entries[j]).0@
}

proof fn lemma_table_has(entries: Seq<(String, SourceFile)>, k: Seq<char>)
    ensures
        table_of(entries).contains_key(k) <==> exists|i: int|
            0 <= i < entries.len() && (#[trigger] entries[i]).0@ == k,
    decreases entries.len(),
{
    if entries.len() > 0 {
        let rest = entries.drop_last();
        lemma_table_has(rest, k);
        if table_of(entries).contains_key(k) && entries.last().0@ != k {
            let i = choose|i: int| 0 <= i < rest.len() && (#[trigger] rest[i]).0@ == k;
            assert(entries[i] == rest[i]);
        }
        if exists|i: int| 0 <= i < entries.len() && (#[trigger] entries[i]).0@ == k {
            let i = choose|i: int| 0 <= i < entries.len() && (#[trigger] entries[i]).0@ == k;
            if i < entries.len() - 1 {
                assert(rest[i] == entries[i]);
            }
        }
    }
}

proof fn lemma_table_at(entries: Seq<(String, SourceFile)>, i: int)
    requires
        keys_distinct(entries),
        0 <= i < entries.len(),
    ensures
        table_of(entries).contains_key(entries[i].0@),
        table_of(entries)[entries[i].0@] == entries[i].1,
    decreases entries.len(),
{
    if i < entries.len() - 1 {
        let rest = entries.drop_last();
        assert(rest[i] == entries[i]);
        assert(keys_distinct(rest)) by {
            assert forall|a: int, b: int| 0 <= a < b < rest.len() implies (#[trigger] rest[a]).0@
                != (#[trigger] rest[b]).0@ by {
                assert(rest[a] == entries[a] && rest[b] == entries[b]);
            }
        }
        lemma_table_at(rest, i);
        assert(entries[i].0@ != entries[entries.len() - 1].0@);
    }
}

proof fn lemma_table_size(entries: Seq<(String, SourceFile)>)
    requires
        keys_distinct(entries),
    ensures
        table_of(entries).dom().finite(),
        table_of(entries).dom().len() == entries.len(),
    decreases entries.len(),
{
    if entries.len() > 0 {
        let rest = entries.drop_last();
        assert(keys_distinct(rest)) by {
            assert forall|a: int, b: int| 0 <= a < b < rest.len() implies (#[trigger] rest[a]).0@
                != (#[trigger] rest[b]).0@ by {
                assert(rest[a] == entries[a] && rest[b] == entries[b]);
            }
        }
        lemma_table_size(rest);
        lemma_table_has(rest, entries.last().0@);
        if table_of(rest).contains_key(entries.last().0@) {
            let i = choose|i: int| 0 <= i < rest.len() && (#[trigger] rest[i]).0@ == entries.last().0@;
            assert(rest[i] == entries[i]);
        }
    }
}

proof fn lemma_table_update(entries: Seq<(String, SourceFile)>, i: int, e: (String, SourceFile))
    requires
        keys_distinct(entries),
        0 <= i < entries.len(),
        entries[i].0@ == e.0@,
    ensures
        keys_distinct(entries.update(i, e)),
        table_of(entries.update(i, e)) == table_of(entries).insert(e.0@, e.1),
{
    let u = entries.update(i, e);
    assert(keys_distinct(u)) by {
        assert forall|a: int, b: int| 0 <= a < b < u.len() implies (#[trigger] u[a]).0@
            != (#[trigger] u[b]).0@ by {
            assert(u[a].0@ == entries[a].0@ && u[b].0@ == entries[b].0@);
        }
    }
    let lhs = table_of(u);
    let rhs = table_of(entries).insert(e.0@, e.1);
    assert forall|k: Seq<char>| #[trigger] lhs.contains_key(k) <==> rhs.contains_key(k) by {
        lemma_table_has(u, k);
        lemma_table_has(entries, k);
        if k != e.0@ {
            if lhs.contains_key(k) {
                let j = choose|j: int| 0 <= j < u.len() && (#[trigger] u[j]).0@ == k;
                assert(entries[j].0@ == k);
            }
            if rhs.contains_key(k) {
                let j = choose|j: int| 0 <= j < entries.len() && (#[trigger] entries[j]).0@ == k;
                assert(u[j].0@ == k);
            }
        } else {
            assert(u[i].0@ == k);
        }
    }
    assert forall|k: Seq<char>| #[trigger] lhs.contains_key(k) implies lhs[k] == rhs[k] by {
        lemma_table_has(u, k);
        let j = choose|j: int| 0 <= j < u.len() && (#[trigger] u[j]).0@ == k;
        lemma_table_at(u, j);
        if j != i {
            lemma_table_at(entries, j);
            assert(u[j] == entries[j]);
        }
    }
    assert(lhs =~= rhs);
}

proof fn lemma_table_push(entries: Seq<(String, SourceFile)>, e: (String, SourceFile))
    requires
        keys_distinct(entries),
        forall|i: int| 0 <= i < entries.len() ==> (#[trigger] entries[i]).0@ != e.0@,
    ensures
        keys_distinct(entries.push(e)),
        table_of(entries.push(e)) == table_of(entries).insert(e.0@, e.1),
{
    let p = entries.push(e);
    assert(p.drop_last() =~= entries);
    assert(keys_distinct(p)) by {
        assert forall|a: int, b: int| 0 <= a < b < p.len() implies (#[trigger] p[a]).0@
            != (#[trigger] p[b]).0@ by {
            if b < entries.len() {
                assert(p[a] == entries[a] && p[b] == entries[b]);
            } else {
                assert(p[a] == entries[a]);
            }
        }
    }
}

/// The file recorded for `p`: its declarations, or the stop it causes.
pub open spec fn load(t: Map<Seq<char>, SourceFile>, p: Seq<char>) -> Result<Seq<Decl>, VisitView> {
    if !t.contains_key(p) {
        Err(VisitView::NeedFile(p))
    } else {
        match t[p] {
            SourceFile::Missing => Err(
                VisitView::Failed(ErrorView::ReadError { path: p, reason: None }),
            ),
            SourceFile::Unreadable(why) => Err(
                VisitView::Failed(ErrorView::ReadError { path: p, reason: Some(why@) }),
            ),
            SourceFile::Unparsable(why) => Err(
                VisitView::Failed(ErrorView::ParseError { path: p, reason: why@ }),
            ),
            SourceFile::Parsed(decls) => Ok(decls@),
        }
    }
}

pub open spec fn suffix_rs() -> Seq<char> {
    seq!['.', 'r', 's']
}

pub open spec fn suffix_mod_rs() -> Seq<char> {
    seq!['/', 'm', 'o', 'd', '.', 'r', 's']
}

/// `<name>.rs` beside the declaring file.
pub open spec fn flat_candidate(dir: Seq<char>, name: Seq<char>) -> Seq<char> {
    join_path(dir, name + suffix_rs())
}

/// `<name>/mod.rs` beside the declaring file.
pub open spec fn dir_candidate(dir: Seq<char>, name: Seq<char>) -> Seq<char> {
    join_path(dir, name + suffix_mod_rs())
}

/// A candidate exists when it is recorded as anything but missing.
pub open spec fn exists_in(t: Map<Seq<char>, SourceFile>, p: Seq<char>) -> bool {
    t.contains_key(p) && !(t[p] is Missing)
}

/// The module's file: `<name>.rs` if it exists, else `<name>/mod.rs` if that
/// exists, else none; a candidate not yet recorded must be recorded first.
pub open spec fn resolve_spec(t: Map<Seq<char>, SourceFile>, dir: Seq<char>, name: Seq<char>) -> ResolutionView {
    let c1 = flat_candidate(dir, name);
    let c2 = dir_candidate(dir, name);
    if !t.contains_key(c1) {
        ResolutionView::Pending(c1)
    } else if exists_in(t, c1) {
        ResolutionView::Found(c1)
    } else if !t.contains_key(c2) {
        ResolutionView::Pending(c2)
    } else if exists_in(t, c2) {
        ResolutionView::Found(c2)
    } else {
        ResolutionView::NotFound { flat_candidate: c1, dir_candidate: c2 }
    }
}

/// The event a declaration contributes to the section of kind `k`, if any.
pub open spec fn item_event(include_tests: bool, in_test: bool, d: Decl, k: Kind) -> Option<EventView> {
    if kind_of(d) != k || skipped(include_tests, in_test || own_test(d)) {
        None
    } else {
        match d {
            Decl::Struct(s) => Some(EventView::Struct(struct_view(s))),
            Decl::Enum(e) => Some(EventView::Enum(enum_view(e))),
            Decl::Function(f) => Some(EventView::Function(fn_view(f))),
            Decl::TraitImpl(i) => {
                let v = impl_view(i, include_tests, in_test || own_test(d));
                if v.functions.len() == 0 {
                    None
                } else {
                    Some(EventView::TraitImpl(v))
                }
            },
            _ => None,
        }
    }
}

pub open spec fn opt_seq(o: Option<EventView>) -> Seq<EventView> {
    match o {
        Some(e) => seq![e],
        None => Seq::empty(),
    }
}

/// The events of one kind in a scope, in source order.
pub open spec fn section(include_tests: bool, in_test: bool, items: Seq<Decl>, k: Kind) -> Seq<EventView> {
    items.filter_map(|d: Decl| item_event(include_tests, in_test, d, k))
}

/// Structs, then enums, then functions, then impl blocks.
pub open spec fn flat_sections(include_tests: bool, in_test: bool, items: Seq<Decl>) -> Seq<EventView> {
    section(include_tests, in_test, items, Kind::Struct) + section(
        include_tests,
        in_test,
        items,
        Kind::Enum,
    ) + section(include_tests, in_test, items, Kind::Function) + section(
        include_tests,
        in_test,
        items,
        Kind::TraitImpl,
    )
}

/// `es` in front of the events of `w`, if `w` completed; else the stop of `w`.
pub open spec fn prepend(es: Seq<EventView>, w: VisitView) -> VisitView {
    match w {
        VisitView::Complete(r) => VisitView::Complete(es + r),
        other => other,
    }
}

/// A module's events between its begin and end events; nothing at all for a
/// module with no events.
pub open spec fn wrap_module(name: Seq<char>, w: VisitView) -> VisitView {
    match w {
        VisitView::Complete(es) => if es.len() == 0 {
            VisitView::Complete(Seq::empty())
        } else {
            VisitView::Complete(
                seq![EventView::BeginModule(name)] + es + seq![EventView::EndModule(name)],
            )
        },
        other => other,
    }
}

/// The walk of one scope: its flat sections, then its modules in source
/// order. `dir` is the directory of the file the scope stands in, `in_test`
/// tells whether the scope is test-only, and `budget` is how many more files
/// may be entered below it.
pub open spec fn scope_walk(
    t: Map<Seq<char>, SourceFile>,
    include_tests: bool,
    dir: Seq<char>,
    in_test: bool,
    budget: nat,
    items: Seq<Decl>,
) -> VisitView
    decreases budget, items, items.len() + 1,
{
    prepend(
        flat_sections(include_tests, in_test, items),
        modules_walk(t, include_tests, dir, in_test, budget, items, 0),
    )
}

/// The modules of `items` from index `i` on.
pub open spec fn modules_walk(
    t: Map<Seq<char>, SourceFile>,
    include_tests: bool,
    dir: Seq<char>,
    in_test: bool,
    budget: nat,
    items: Seq<Decl>,
    i: nat,
) -> VisitView
    decreases budget, items, items.len() - i,
{
    if i >= items.len() {
        VisitView::Complete(Seq::empty())
    } else {
        match module_walk(t, include_tests, dir, in_test, budget, items[i as int]) {
            VisitView::Complete(es) => prepend(
                es,
                modules_walk(t, include_tests, dir, in_test, budget, items, i + 1),
            ),
            other => other,
        }
    }
}

/// The walk of one declaration in the module position: nothing for anything
/// but a module, or for a module the test policy leaves out; otherwise the
/// module's inline body or its resolved file, wrapped in begin and end events.
pub open spec fn module_walk(
    t: Map<Seq<char>, SourceFile>,
    include_tests: bool,
    dir: Seq<char>,
    in_test: bool,
    budget: nat,
    d: Decl,
) -> VisitView
    decreases budget, d, 0int,
{
    match d {
        Decl::Module(m) => {
            let test = in_test || own_test(d);
            if skipped(include_tests, test) {
                VisitView::Complete(Seq::empty())
            } else {
                let body = match m.content {
                    Some(v) => scope_walk(t, include_tests, dir, test, budget, v@),
                    None => match resolve_spec(t, dir, m.name@) {
                        ResolutionView::Pending(p) => VisitView::NeedFile(p),
                        ResolutionView::NotFound { flat_candidate, dir_candidate } =>
                            VisitView::Failed(
                            ErrorView::ModuleNotFound {
                                module: m.name@,
                                flat_candidate,
                                dir_candidate,
                            },
                        ),
                        ResolutionView::Found(p) => match load(t, p) {
                            Ok(decls) => if budget == 0 {
                                VisitView::Failed(ErrorView::ModuleCycle { path: p })
                            } else {
                                scope_walk(
                                    t,
                                    include_tests,
                                    parent_dir(p),
                                    test,
                                    (budget - 1) as nat,
                                    decls,
                                )
                            },
                            Err(h) => h,
                        },
                    },
                };
                wrap_module(m.name@, body)
            }
        },
        _ => VisitView::Complete(Seq::empty()),
    }
}

/// The visit of the entry file `entry`: every file may be entered once on
/// any path down from the entry, so the depth of files is bounded by the
/// number of recorded files, and going deeper means a module cycle.
pub open spec fn visit_spec(t: Map<Seq<char>, SourceFile>, include_tests: bool, entry: Seq<char>) -> VisitView {
    match load(t, entry) {
        Ok(decls) => scope_walk(
            t,
            include_tests,
            parent_dir(entry),
            false,
            (t.dom().len() - 1) as nat,
            decls,
        ),
        Err(h) => h,
    }
}

proof fn lemma_prepend_assoc(a: Seq<EventView>, b: Seq<EventView>, w: VisitView)
    ensures
        prepend(a, prepend(b, w)) == prepend(a + b, w),
{
    if let VisitView::Complete(r) = w {
        assert(a + (b + r) =~= (a + b) + r);
    }
}

fn push_section(
    out: &mut Vec<Event>,
    items: &Vec<Decl>,
    include_tests: bool,
    in_test: bool,
    k: Kind,
)
    ensures
        events_view(final(out)@) == events_view(old(out)@) + section(
            include_tests,
            in_test,
            items@,
            k,
        ),
{
    let ghost start = events_view(out@);
    let mut i: usize = 0;
    while i < items.len()
        invariant
            i <= items@.len(),
            events_view(out@) == start + section(
                include_tests,
                in_test,
                items@.subrange(0, i as int),
                k,
            ),
        decreases items.len() - i,
    {
        let ghost before = out@;
        proof {
            assert(items@.subrange(0, i + 1).drop_last() =~= items@.subrange(0, i as int));
        }
        let d = &items[i];
        let (kind, test) = classify(d, in_test);
        if kind == k && (include_tests || !test) {
            match d {
                Decl::Struct(s) => {
                    out.push(Event::Struct(StructContext::new(s)));
                },
                Decl::Enum(e) => {
                    out.push(Event::Enum(EnumContext::new(e)));
                },
                Decl::Function(f) => {
                    out.push(Event::Function(FunctionContext::new(f)));
                },
                Decl::TraitImpl(im) => {
                    let c = ImplContext::new(im, include_tests, test);
                    if c.functions.len() > 0 {
                        out.push(Event::TraitImpl(c));
                    }
                },
                _ => {},
            }
        }
        assert(events_view(out@) =~= events_view(before) + opt_seq(
            item_event(include_tests, in_test, items@[i as int], k),
        ));
        i = i + 1;
    }
    assert(items@.subrange(0, items@.len() as int) =~= items@);
}

fn wrap(name: &String, body: Visit) -> (r: Visit)
    ensures
        r@ == wrap_module(name@, body@),
{
    match body {
        Visit::Complete(mut es) => {
            if es.len() == 0 {
                assert(events_view(es@).len() == 0);
                assert(events_view(Seq::<Event>::empty()) =~= Seq::<EventView>::empty());
                Visit::Complete(Vec::new())
            } else {
                let ghost inner = es@;
                let mut r: Vec<Event> = Vec::new();
                r.push(Event::BeginModule(name.clone()));
                r.append(&mut es);
                r.push(Event::EndModule(name.clone()));
                assert(events_view(r@) =~= seq![EventView::BeginModule(name@)] + events_view(inner)
                    + seq![EventView::EndModule(name@)]);
                Visit::Complete(r)
            }
        },
        other => other,
    }
}

/// The engine, holding every file recorded so far.
pub struct ItemVisitor {
    files: Vec<(String, SourceFile)>,
}

impl ItemVisitor {
    /// The recorded files, by path.
    pub closed spec fn table(&self) -> Map<Seq<char>, SourceFile> {
        table_of(self.files@)
    }

    pub closed spec fn wf(&self) -> bool {
        keys_distinct(self.files@)
    }

    /// An engine that knows no file yet.
    pub fn new() -> (r: ItemVisitor)
        ensures
            r.wf(),
            r.table() == Map::<Seq<char>, SourceFile>::empty(),
    {
        ItemVisitor { files: Vec::new() }
    }

    /// Records what the file at `path` turned out to be, replacing an earlier record.
    pub fn record(&mut self, path: String, file: SourceFile)
        requires
            old(self).wf(),
        ensures
            final(self).wf(),
            final(self).table() == old(self).table().insert(path@, file),
    {
        match self.position(&path) {
            Some(i) => {
                proof {
                    lemma_table_update(self.files@, i as int, (path, file));
                }
                self.files.set(i, (path, file));
            },
            None => {
                proof {
                    lemma_table_push(self.files@, (path, file));
                }
                self.files.push((path, file));
            },
        }
    }

    /// The number of files recorded.
    pub fn len(&self) -> (r: usize)
        requires
            self.wf(),
        ensures
            self.table().dom().finite(),
            r == self.table().dom().len(),
    {
        proof {
            lemma_table_size(self.files@);
        }
        self.files.len()
    }

    fn position(&self, p: &String) -> (r: Option<usize>)
        ensures
            match r {
                Some(i) => i < self.files@.len() && self.files@[i as int].0@ == p@,
                None => forall|i: int|
                    0 <= i < self.files@.len() ==> (#[trigger] self.files@[i]).0@ != p@,
            },
    {
        let mut i: usize = 0;
        while i < self.files.len()
            invariant
                i <= self.files@.len(),
                forall|j: int| 0 <= j < i ==> (#[trigger] self.files@[j]).0@ != p@,
            decreases self.files.len() - i,
        {
            if self.files[i].0.eq(p) {
                return Some(i);
            }
            i = i + 1;
        }
        None
    }

    /// The file recorded for `p`, if any.
    pub fn lookup(&self, p: &String) -> (r: Option<&SourceFile>)
        requires
            self.wf(),
        ensures
            match r {
                Some(f) => self.table().contains_key(p@) && self.table()[p@] == *f,
                None => !self.table().contains_key(p@),
            },
    {
        proof {
            lemma_table_has(self.files@, p@);
        }
        match self.position(p) {
            Some(i) => {
                proof {
                    lemma_table_at(self.files@, i as int);
                }
                Some(&self.files[i].1)
            },
            None => None,
        }
    }

    fn load_file(&self, p: &String) -> (r: Result<&Vec<Decl>, Visit>)
        requires
            self.wf(),
        ensures
            match r {
                Ok(v) => load(self.table(), p@) == Ok::<Seq<Decl>, VisitView>(v@),
                Err(h) => load(self.table(), p@) == Err::<Seq<Decl>, VisitView>(h@),
            },
    {
        match self.lookup(p) {
            None => Err(Visit::NeedFile(p.clone())),
            Some(SourceFile::Missing) => Err(
                Visit::Failed(TraverseError::ReadError { path: p.clone(), reason: None }),
            ),
            Some(SourceFile::Unreadable(why)) => Err(
                Visit::Failed(TraverseError::ReadError { path: p.clone(), reason: Some(why.clone()) }),
            ),
            Some(SourceFile::Unparsable(why)) => Err(
                Visit::Failed(TraverseError::ParseError { path: p.clone(), reason: why.clone() }),
            ),
            Some(SourceFile::Parsed(decls)) => Ok(decls),
        }
    }

    fn exists_here(&self, p: &String) -> (r: Option<bool>)
        requires
            self.wf(),
        ensures
            r == (if self.table().contains_key(p@) {
                Some(exists_in(self.table(), p@))
            } else {
                None::<bool>
            }),
    {
        match self.lookup(p) {
            None => None,
            Some(SourceFile::Missing) => Some(false),
            Some(_) => Some(true),
        }
    }

    /// Finds the file of the out-of-line module `name` declared in a file of
    /// the directory `dir`: `<name>.rs` first, then `<name>/mod.rs`.
    pub fn resolve_module(&self, dir: &String, name: &String) -> (r: Resolution)
        requires
            self.wf(),
        ensures
            r@ == resolve_spec(self.table(), dir@, name@),
    {
        proof {
            reveal_strlit(".rs");
            reveal_strlit("/mod.rs");
            assert(".rs"@ =~= suffix_rs());
            assert("/mod.rs"@ =~= suffix_mod_rs());
        }
        let mut flat_name = name.clone();
        flat_name.append(".rs");
        let c1 = join_path_of(dir.as_str(), flat_name.as_str());
        let mut dir_name = name.clone();
        dir_name.append("/mod.rs");
        let c2 = join_path_of(dir.as_str(), dir_name.as_str());
        match self.exists_here(&c1) {
            None => Resolution::Pending(c1),
            Some(true) => Resolution::Found(c1),
            Some(false) => match self.exists_here(&c2) {
                None => Resolution::Pending(c2),
                Some(true) => Resolution::Found(c2),
                Some(false) => Resolution::NotFound { flat_candidate: c1, dir_candidate: c2 },
            },
        }
    }
    fn walk_scope(
        &self,
        dir: &String,
        items: &Vec<Decl>,
        include_tests: bool,
        in_test: bool,
        budget: usize,
    ) -> (r: Visit)
        requires
            self.wf(),
        ensures
            r@ == scope_walk(self.table(), include_tests, dir@, in_test, budget as nat, items@),
        decreases budget, items@, items@.len() + 1,
    {
        let mut out: Vec<Event> = Vec::new();
        push_section(&mut out, items, include_tests, in_test, Kind::Struct);
        push_section(&mut out, items, include_tests, in_test, Kind::Enum);
        push_section(&mut out, items, include_tests, in_test, Kind::Function);
        push_section(&mut out, items, include_tests, in_test, Kind::TraitImpl);
        assert(events_view(out@) =~= flat_sections(include_tests, in_test, items@));
        let mut i: usize = 0;
        while i < items.len()
            invariant
                self.wf(),
                i <= items@.len(),
                scope_walk(self.table(), include_tests, dir@, in_test, budget as nat, items@)
                    == prepend(
                    events_view(out@),
                    modules_walk(
                        self.table(),
                        include_tests,
                        dir@,
                        in_test,
                        budget as nat,
                        items@,
                        i as nat,
                    ),
                ),
            decreases items.len() - i,
        {
            match self.walk_module(dir, &items[i], include_tests, in_test, budget) {
                Visit::Complete(mut es) => {
                    let ghost before = out@;
                    let ghost got = es@;
                    out.append(&mut es);
                    proof {
                        assert(events_view(out@) =~= events_view(before) + events_view(got));
                        lemma_prepend_assoc(
                            events_view(before),
                            events_view(got),
                            modules_walk(
                                self.table(),
                                include_tests,
                                dir@,
                                in_test,
                                budget as nat,
                                items@,
                                (i + 1) as nat,
                            ),
                        );
                    }
                    i = i + 1;
                },
                other => {
                    return other;
                },
            }
        }
        assert(events_view(out@) + Seq::<EventView>::empty() =~= events_view(out@));
        Visit::Complete(out)
    }

    fn walk_module(
        &self,
        dir: &String,
        d: &Decl,
        include_tests: bool,
        in_test: bool,
        budget: usize,
    ) -> (r: Visit)
        requires
            self.wf(),
        ensures
            r@ == module_walk(self.table(), include_tests, dir@, in_test, budget as nat, *d),
        decreases budget, *d, 0int,
    {
        match d {
            Decl::Module(m) => {
                let (_, test) = classify(d, in_test);
                if !include_tests && test {
                    assert(events_view(Seq::<Event>::empty()) =~= Seq::<EventView>::empty());
                    return Visit::Complete(Vec::new());
                }
                let body = match &m.content {
                    Some(v) => self.walk_scope(dir, v, include_tests, test, budget),
                    None => match self.resolve_module(dir, &m.name) {
                        Resolution::Pending(p) => Visit::NeedFile(p),
                        Resolution::NotFound { flat_candidate, dir_candidate } => Visit::Failed(
                            TraverseError::ModuleNotFound {
                                module: m.name.clone(),
                                flat_candidate,
                                dir_candidate,
                            },
                        ),
                        Resolution::Found(p) => match self.load_file(&p) {
                            Ok(decls) => {
                                if budget == 0 {
                                    Visit::Failed(TraverseError::ModuleCycle { path: p })
                                } else {
                                    let sub = parent_dir_of(p.as_str());
                                    self.walk_scope(&sub, decls, include_tests, test, budget - 1)
                                }
                            },
                            Err(h) => h,
                        },
                    },
                };
                wrap(&m.name, body)
            },
            _ => {
                assert(events_view(Seq::<Event>::empty()) =~= Seq::<EventView>::empty());
                Visit::Complete(Vec::new())
            },
        }
    }

    /// Visits the entry file `path`: the event stream of everything it
    /// declares, directly or through its modules, or the error that stopped
    /// the walk, or the next file that must be recorded.
    pub fn visit_file(&self, path: &String, include_tests: bool) -> (r: Visit)
        requires
            self.wf(),
        ensures
            r@ == visit_spec(self.table(), include_tests, path@),
    {
        match self.load_file(path) {
            Ok(decls) => {
                let n = self.len();
                proof {
                    assert(self.table().dom().contains(path@));
                    if n == 0 {
                        self.table().dom().lemma_len0_is_empty();
                    }
                }
                let dir = parent_dir_of(path.as_str());
                self.walk_scope(&dir, decls, include_tests, false, n - 1)
            },
            Err(h) => h,
        }
    }
    /// Visits `items` as if they were the declarations of the file `path`,
    /// in a scope that is test-only when `in_test` holds.
    pub fn visit_items(&self, path: &String, items: &Vec<Decl>, include_tests: bool, in_test: bool) -> (r: Visit)
        requires
            self.wf(),
        ensures
            r@ == scope_walk(
                self.table(),
                include_tests,
                parent_dir(path@),
                in_test,
                self.table().dom().len(),
                items@,
            ),
    {
        let n = self.len();
        let dir = parent_dir_of(path.as_str());
        self.walk_scope(&dir, items, include_tests, in_test, n)
    }
}

} // verus!
