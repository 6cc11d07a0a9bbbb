//! The workspace as the generators see it: crate names, the dependency graph
//! between workspace members, and the map from each member to the members it
//! depends on.
use crate::text::{
    chars_of, contains_seq, copy_strings, dashed, has_piece, holds_text, replace_all, same_text,
    underscored, views,
};
use vstd::prelude::*;

verus! {

/// Identifier form of a crate name: every `-` becomes `_`.
pub fn normalize_crate_name(name: &str) -> (r: String)
    ensures
        r@ == underscored(name@),
{
    replace_all(name, '-', '_')
}

/// The identifier forms of a list of crate names, in order.
pub fn normalized_names(names: &Vec<String>) -> (r: Vec<String>)
    ensures
        views(r@) == views(names@).map_values(|n: Seq<char>| underscored(n)),
{
    let mut r: Vec<String> = Vec::new();
    let mut i: usize = 0;
    while i < names.len()
        invariant
            i <= names.len(),
            r@.len() == i,
            forall|j: int| 0 <= j < i ==> #[trigger] r@[j]@ == underscored(names@[j]@),
        decreases names.len() - i,
    {
        r.push(normalize_crate_name(names[i].as_str()));
        i = i + 1;
    }
    assert(views(r@) =~= views(names@).map_values(|n: Seq<char>| underscored(n)));
    r
}

/// Cargo reports a workspace when it has more than one member or more than
/// one workspace package.
pub fn is_workspace(member_count: usize, package_count: usize) -> (r: bool)
    ensures
        r == (member_count > 1 || package_count > 1),
{
    member_count > 1 || package_count > 1
}

/// One member of the workspace: its package name, its directory, and which of
/// `src/main.rs`, `src/lib.rs` and `lib.rs` exist in that directory.
pub struct WorkspaceMember {
    pub name: String,
    pub path: String,
    pub has_src_main: bool,
    pub has_src_lib: bool,
    pub has_root_lib: bool,
}

/// The text that `Path::strip_prefix` leaves of `path` below `base`, or all of
/// `path` when `base` is not a prefix of it, as `Path::display` shows it.
pub uninterp spec fn relative_path_text(path: Seq<char>, base: Seq<char>) -> Seq<char>;

/// `path` relative to `base`: calls `std::path::Path::strip_prefix`, keeps the
/// whole path when that fails, and shows the result with `Path::display`.
/// The contract names the result; how paths split into components is std's
/// and is not restated here.
#[verifier::external_body]
pub(crate) fn relative_display(path: &str, base: &str) -> (r: String)
    ensures
        r@ == relative_path_text(path@, base@),
{
    let p = std::path::Path::new(path);
    p.strip_prefix(base).unwrap_or(p).display().to_string()
}

/// The last component of `path` as `Path::file_name` gives it, converted with
/// `to_string_lossy`; none where `Path::file_name` gives none (a path that ends
/// in `..`, or has no normal component at its end).
pub uninterp spec fn file_name_part(path: Seq<char>) -> Option<Seq<char>>;

/// The text of an optional string.
pub open spec fn text_opt(o: Option<String>) -> Option<Seq<char>> {
    match o {
        Some(s) => Some(s@),
        None => None,
    }
}

/// The last component of a path: calls `std::path::Path::file_name` and
/// converts what it gives with `to_string_lossy`. The contract names the
/// result; which component std takes as the last is not restated here.
#[verifier::external_body]
pub(crate) fn file_name_of(path: &str) -> (r: Option<String>)
    ensures
        text_opt(r) == file_name_part(path@),
{
    match std::path::Path::new(path).file_name() {
        Some(n) => Some(n.to_string_lossy().into_owned()),
        None => None,
    }
}

/// The name a crate page gives its directory: the last component of the
/// path, or the whole path when it has none.
pub open spec fn dir_name_text(path: Seq<char>) -> Seq<char> {
    match file_name_part(path) {
        Some(n) => n,
        None => path,
    }
}

/// The name a crate page gives the directory at `path`.
pub fn dir_name_of(path: &str) -> (r: String)
    ensures
        r@ == dir_name_text(path@),
{
    match file_name_of(path) {
        Some(n) => n,
        None => String::from_str(path),
    }
}

/// One node of Cargo's resolved dependency graph: its package id and the
/// library names of the dependencies it resolved to.
pub struct ResolveNode {
    pub id: String,
    pub deps: Vec<String>,
}

pub open spec fn node_view(n: ResolveNode) -> (Seq<char>, Seq<Seq<char>>) {
    (n.id@, views(n.deps@))
}

pub open spec fn nodes_view(ns: Seq<ResolveNode>) -> Seq<(Seq<char>, Seq<Seq<char>>)> {
    ns.map_values(|n: ResolveNode| node_view(n))
}

/// One member of the dependency map: a crate and the workspace crates it uses.
pub struct DependencyEntry {
    pub name: String,
    pub deps: Vec<String>,
}

/// The workspace crates that each workspace crate depends on, keyed by crate
/// identifier, each key at most once, in the order the keys were first added.
pub struct DependencyMap {
    entries: Vec<DependencyEntry>,
}

pub open spec fn entry_view(e: DependencyEntry) -> (Seq<char>, Seq<Seq<char>>) {
    (e.name@, views(e.deps@))
}

/// No key occurs twice.
pub open spec fn keys_unique(m: Seq<(Seq<char>, Seq<Seq<char>>)>) -> bool {
    forall|i: int, j: int| 0 <= i < j < m.len() ==> #[trigger] m[i].0 != #[trigger] m[j].0
}

/// The position of key `k`, if it is present.
pub open spec fn key_index(m: Seq<(Seq<char>, Seq<Seq<char>>)>, k: Seq<char>) -> Option<int> {
    if exists|i: int| 0 <= i < m.len() && #[trigger] m[i].0 == k {
        Some(choose|i: int| 0 <= i < m.len() && #[trigger] m[i].0 == k)
    } else {
        None
    }
}

/// The value stored under `k`, or nothing.
pub open spec fn map_get(m: Seq<(Seq<char>, Seq<Seq<char>>)>, k: Seq<char>) -> Seq<Seq<char>> {
    match key_index(m, k) {
        Some(i) => m[i].1,
        None => Seq::empty(),
    }
}

/// `m` with `k` bound to `v`: the old binding replaced in place, or a new one
/// added at the end.
pub open spec fn map_insert(
    m: Seq<(Seq<char>, Seq<Seq<char>>)>,
    k: Seq<char>,
    v: Seq<Seq<char>>,
) -> Seq<(Seq<char>, Seq<Seq<char>>)> {
    match key_index(m, k) {
        Some(i) => m.update(i, (k, v)),
        None => m.push((k, v)),
    }
}

/// The keys whose value lists `k`, in map order.
pub open spec fn dependents_in(m: Seq<(Seq<char>, Seq<Seq<char>>)>, k: Seq<char>) -> Seq<
    Seq<char>,
>
    decreases m.len(),
{
    if m.len() == 0 {
        Seq::empty()
    } else {
        let rest = dependents_in(m.drop_last(), k);
        if m.last().1.contains(k) {
            rest.push(m.last().0)
        } else {
            rest
        }
    }
}

/// The dependencies of a node that are workspace crates, in identifier form.
pub open spec fn workspace_deps_of(deps: Seq<Seq<char>>, ws: Seq<Seq<char>>) -> Seq<Seq<char>>
    decreases deps.len(),
{
    if deps.len() == 0 {
        Seq::empty()
    } else {
        let rest = workspace_deps_of(deps.drop_last(), ws);
        let d = underscored(deps.last());
        if ws.contains(d) {
            rest.push(d)
        } else {
            rest
        }
    }
}

/// The workspace dependencies collected for package `pkg`: those of every
/// node whose id contains the package name, node by node.
pub open spec fn package_deps(
    pkg: Seq<char>,
    nodes: Seq<(Seq<char>, Seq<Seq<char>>)>,
    ws: Seq<Seq<char>>,
) -> Seq<Seq<char>>
    decreases nodes.len(),
{
    if nodes.len() == 0 {
        Seq::empty()
    } else {
        let rest = package_deps(pkg, nodes.drop_last(), ws);
        if contains_seq(nodes.last().0, pkg) {
            rest + workspace_deps_of(nodes.last().1, ws)
        } else {
            rest
        }
    }
}

/// The map built from the packages `pkgs`, one insertion per package in order.
pub open spec fn dependency_entries(
    pkgs: Seq<Seq<char>>,
    nodes: Option<Seq<(Seq<char>, Seq<Seq<char>>)>>,
    ws: Seq<Seq<char>>,
) -> Seq<(Seq<char>, Seq<Seq<char>>)>
    decreases pkgs.len(),
{
    if pkgs.len() == 0 {
        Seq::empty()
    } else {
        let deps = match nodes {
            Some(ns) => package_deps(pkgs.last(), ns, ws),
            None => Seq::empty(),
        };
        map_insert(dependency_entries(pkgs.drop_last(), nodes, ws), underscored(pkgs.last()), deps)
    }
}

/// The dependency map of a workspace with packages `pkgs` and resolved graph `nodes`.
pub open spec fn dependency_map_of(
    pkgs: Seq<Seq<char>>,
    nodes: Option<Seq<(Seq<char>, Seq<Seq<char>>)>>,
) -> Seq<(Seq<char>, Seq<Seq<char>>)> {
    dependency_entries(pkgs, nodes, pkgs.map_values(|p: Seq<char>| underscored(p)))
}

impl View for DependencyMap {
    type V = Seq<(Seq<char>, Seq<Seq<char>>)>;

    closed spec fn view(&self) -> Seq<(Seq<char>, Seq<Seq<char>>)> {
        self.entries@.map_values(|e: DependencyEntry| entry_view(e))
    }
}

proof fn lemma_key_index(m: Seq<(Seq<char>, Seq<Seq<char>>)>, k: Seq<char>, i: int)
    requires
        keys_unique(m),
        0 <= i < m.len(),
        m[i].0 == k,
    ensures
        key_index(m, k) == Some(i),
{
}

pub proof fn lemma_insert_keeps_unique(
    m: Seq<(Seq<char>, Seq<Seq<char>>)>,
    k: Seq<char>,
    v: Seq<Seq<char>>,
)
    requires
        keys_unique(m),
    ensures
        keys_unique(map_insert(m, k, v)),
        map_insert(m, k, v).len() == m.len() || map_insert(m, k, v).len() == m.len() + 1,
{
    let r = map_insert(m, k, v);
    match key_index(m, k) {
        Some(i) => {
            assert forall|a: int, b: int| 0 <= a < b < r.len() implies #[trigger] r[a].0
                != #[trigger] r[b].0 by {
                if a != i && b != i {
                    assert(r[a] == m[a] && r[b] == m[b]);
                } else if a == i {
                    assert(m[a].0 == k);
                    assert(r[b] == m[b]);
                } else {
                    assert(m[b].0 == k);
                    assert(r[a] == m[a]);
                }
            }
        },
        None => {
            assert forall|a: int, b: int| 0 <= a < b < r.len() implies #[trigger] r[a].0
                != #[trigger] r[b].0 by {
                if b == m.len() {
                    assert(r[a] == m[a]);
                    assert(m[a].0 != k);
                } else {
                    assert(r[a] == m[a] && r[b] == m[b]);
                }
            }
        },
    }
}

impl DependencyMap {
    /// The map holds each key at most once.
    #[verifier::type_invariant]
    spec fn wf(&self) -> bool {
        keys_unique(self.entries@.map_values(|e: DependencyEntry| entry_view(e)))
    }

    /// An empty map.
    pub fn new() -> (r: Self)
        ensures
            r@ == Seq::<(Seq<char>, Seq<Seq<char>>)>::empty(),
    {
        let r = DependencyMap { entries: Vec::new() };
        assert(r@ =~= Seq::<(Seq<char>, Seq<Seq<char>>)>::empty());
        r
    }

    /// The number of crates in the map.
    pub fn len(&self) -> (n: usize)
        ensures
            n == self@.len(),
    {
        self.entries.len()
    }

    /// The position of `name` among the keys, if it is one.
    fn position(&self, name: &String) -> (r: Option<usize>)
        ensures
            r matches Some(i) ==> i < self@.len() && key_index(self@, name@) == Some(i as int),
            r is None ==> key_index(self@, name@) is None,
    {
        proof {
            use_type_invariant(self);
        }
        let mut i: usize = 0;
        while i < self.entries.len()
            invariant
                i <= self.entries.len(),
                keys_unique(self@),
                forall|j: int| 0 <= j < i ==> #[trigger] self@[j].0 != name@,
            decreases self.entries.len() - i,
        {
            if same_text(&self.entries[i].name, name) {
                proof {
                    assert(self@[i as int].0 == name@);
                    lemma_key_index(self@, name@, i as int);
                }
                return Some(i);
            }
            assert(self@[i as int].0 == self.entries@[i as int].name@);
            i = i + 1;
        }
        None
    }

    /// Binds `name` to `deps`, replacing an earlier binding of `name` in place.
    pub fn insert(&mut self, name: String, deps: Vec<String>)
        ensures
            final(self)@ == map_insert(old(self)@, name@, views(deps@)),
    {
        let ghost k = name@;
        let ghost v = views(deps@);
        proof {
            use_type_invariant(&*self);
            lemma_insert_keeps_unique(self@, k, v);
        }
        let pos = self.position(&name);
        let mut entries: Vec<DependencyEntry> = Vec::new();
        std::mem::swap(&mut entries, &mut self.entries);
        let ghost before = entries@.map_values(|e: DependencyEntry| entry_view(e));
        assert(before == old(self)@);
        match pos {
            Some(i) => {
                assert(map_insert(old(self)@, k, v) == old(self)@.update(i as int, (k, v)));
                entries.set(i, DependencyEntry { name, deps });
                assert(entries@.map_values(|e: DependencyEntry| entry_view(e)) =~= before.update(
                    i as int,
                    (k, v),
                ));
            },
            None => {
                assert(map_insert(old(self)@, k, v) == old(self)@.push((k, v)));
                entries.push(DependencyEntry { name, deps });
                assert(entries@.map_values(|e: DependencyEntry| entry_view(e)) =~= before.push(
                    (k, v),
                ));
            },
        }
        self.entries = entries;
    }

    /// A copy of the list stored under `name`, or an empty list.
    pub fn get_or_empty(&self, name: &String) -> (r: Vec<String>)
        ensures
            views(r@) == map_get(self@, name@),
    {
        match self.position(name) {
            Some(i) => {
                let r = copy_strings(&self.entries[i].deps);
                assert(views(r@) == self@[i as int].1);
                assert(map_get(self@, name@) == self@[i as int].1);
                r
            },
            None => {
                let r: Vec<String> = Vec::new();
                assert(views(r@) =~= Seq::<Seq<char>>::empty());
                r
            },
        }
    }

    /// The keys of the map, in order.
    pub fn names(&self) -> (r: Vec<String>)
        ensures
            views(r@) == self@.map_values(|e: (Seq<char>, Seq<Seq<char>>)| e.0),
    {
        let mut r: Vec<String> = Vec::new();
        let mut i: usize = 0;
        while i < self.entries.len()
            invariant
                i <= self.entries.len(),
                r@.len() == i,
                forall|j: int| 0 <= j < i ==> #[trigger] r@[j]@ == self@[j].0,
            decreases self.entries.len() - i,
        {
            r.push(self.entries[i].name.clone());
            i = i + 1;
        }
        assert(views(r@) =~= self@.map_values(|e: (Seq<char>, Seq<Seq<char>>)| e.0));
        r
    }

    /// The list stored at position `i`, a copy.
    pub fn deps_at(&self, i: usize) -> (r: Vec<String>)
        requires
            i < self@.len(),
        ensures
            views(r@) == self@[i as int].1,
    {
        copy_strings(&self.entries[i].deps)
    }

    /// The key at position `i`, a copy.
    pub fn name_at(&self, i: usize) -> (r: String)
        requires
            i < self@.len(),
        ensures
            r@ == self@[i as int].0,
    {
        self.entries[i].name.clone()
    }

    /// The crates whose dependency list names `name`, in map order.
    pub fn dependents_of(&self, name: &String) -> (r: Vec<String>)
        ensures
            views(r@) == dependents_in(self@, name@),
    {
        let mut r: Vec<String> = Vec::new();
        let mut i: usize = 0;
        while i < self.entries.len()
            invariant
                i <= self.entries.len(),
                views(r@) == dependents_in(self@.take(i as int), name@),
            decreases self.entries.len() - i,
        {
            let ghost before = views(r@);
            assert(self@.take(i + 1).drop_last() =~= self@.take(i as int));
            assert(self@[i as int].1 == views(self.entries@[i as int].deps@));
            if holds_text(&self.entries[i].deps, name) {
                r.push(self.entries[i].name.clone());
                assert(views(r@) =~= before.push(self@[i as int].0));
            }
            i = i + 1;
        }
        assert(self@.take(i as int) =~= self@);
        r
    }
}

/// The workspace dependencies of one node, filtered to `ws`, in identifier form.
fn node_workspace_deps(deps: &Vec<String>, ws: &Vec<String>, out: &mut Vec<String>)
    ensures
        views(final(out)@) == views(old(out)@) + workspace_deps_of(views(deps@), views(ws@)),
{
    let ghost start = views(out@);
    let mut i: usize = 0;
    while i < deps.len()
        invariant
            i <= deps.len(),
            views(out@) == start + workspace_deps_of(views(deps@).take(i as int), views(ws@)),
        decreases deps.len() - i,
    {
        assert(views(deps@).take(i + 1).drop_last() =~= views(deps@).take(i as int));
        let ghost before = views(out@);
        let d = normalize_crate_name(deps[i].as_str());
        if holds_text(ws, &d) {
            out.push(d);
            assert(views(out@) =~= before.push(underscored(deps@[i as int]@)));
        }
        i = i + 1;
    }
    assert(views(deps@).take(i as int) =~= views(deps@));
}

/// The dependency map of a workspace: for each package, in order, its
/// identifier bound to the workspace crates that the resolved graph lists for
/// every node whose id contains the package name.
pub fn build_dependency_map(packages: &Vec<String>, resolve: &Option<Vec<ResolveNode>>) -> (r:
    DependencyMap)
    ensures
        r@ == dependency_map_of(
            views(packages@),
            match resolve {
                Some(ns) => Some(nodes_view(ns@)),
                None => None,
            },
        ),
{
    let ghost nodes = match resolve {
        Some(ns) => Some(nodes_view(ns@)),
        None => None::<Seq<(Seq<char>, Seq<Seq<char>>)>>,
    };
    let workspace_names = normalized_names(packages);
    let ghost ws = views(packages@).map_values(|p: Seq<char>| underscored(p));
    let mut map = DependencyMap::new();
    let mut i: usize = 0;
    while i < packages.len()
        invariant
            i <= packages.len(),
            views(workspace_names@) == ws,
            ws == views(packages@).map_values(|p: Seq<char>| underscored(p)),
            map@ == dependency_entries(views(packages@).take(i as int), nodes, ws),
            nodes == (match resolve {
                Some(ns) => Some(nodes_view(ns@)),
                None => None::<Seq<(Seq<char>, Seq<Seq<char>>)>>,
            }),
        decreases packages.len() - i,
    {
        let pkg = &packages[i];
        let me = normalize_crate_name(pkg.as_str());
        let mut deps: Vec<String> = Vec::new();
        let pkg_chars = chars_of(pkg.as_str());
        match resolve {
            Some(ns) => {
                let mut k: usize = 0;
                while k < ns.len()
                    invariant
                        k <= ns.len(),
                        pkg_chars@ == packages@[i as int]@,
                        i < packages.len(),
                        views(deps@) == package_deps(
                            packages@[i as int]@,
                            nodes_view(ns@).take(k as int),
                            ws,
                        ),
                        views(workspace_names@) == ws,
                    decreases ns.len() - k,
                {
                    assert(nodes_view(ns@).take(k + 1).drop_last() =~= nodes_view(ns@).take(
                        k as int,
                    ));
                    let id_chars = chars_of(ns[k].id.as_str());
                    if has_piece(&id_chars, &pkg_chars) {
                        node_workspace_deps(&ns[k].deps, &workspace_names, &mut deps);
                    }
                    k = k + 1;
                }
                assert(nodes_view(ns@).take(k as int) =~= nodes_view(ns@));
            },
            None => {
                assert(views(deps@) =~= Seq::<Seq<char>>::empty());
            },
        }
        assert(views(packages@).take(i + 1).drop_last() =~= views(packages@).take(i as int));
        map.insert(me, deps);
        i = i + 1;
    }
    assert(views(packages@).take(i as int) =~= views(packages@));
    map
}

/// The participants of a crate's sequence diagram: the crate, its workspace
/// dependencies in display form, then each dependent in display form that is
/// not listed yet, cut to the first six.
pub open spec fn participants(
    name: Seq<char>,
    deps: Seq<Seq<char>>,
    dependents: Seq<Seq<char>>,
) -> Seq<Seq<char>> {
    let all = add_absent(seq![name] + deps.map_values(|d: Seq<char>| dashed(d)), dependents);
    if all.len() > 6 {
        all.take(6)
    } else {
        all
    }
}

/// `p` followed by the display forms of `ds` that it does not hold yet, one
/// at a time.
pub open spec fn add_absent(p: Seq<Seq<char>>, ds: Seq<Seq<char>>) -> Seq<Seq<char>>
    decreases ds.len(),
{
    if ds.len() == 0 {
        p
    } else {
        let q = add_absent(p, ds.drop_last());
        let d = dashed(ds.last());
        if q.contains(d) {
            q
        } else {
            q.push(d)
        }
    }
}

} // verus!
