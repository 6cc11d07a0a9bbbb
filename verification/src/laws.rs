//! Properties of the generators that hold for every input: what the
//! participant list of a sequence diagram can hold, how the dependency map
//! and the dependents relation agree, that directory entries come out sorted,
//! which lines count as public items and which files become modules, how
//! the manifest's description is read, what a source text's items are, the
//! dependency role that ends a compact page, and facts about the text
//! operations they are built from.
use crate::helper::{
    crate_flowchart, crate_page, crate_sequence, crate_type_of, crate_yaml, graph_role,
    manifest_fields, module_summary,
    basic_close, child_labels, description_value, dir_modules, entry_names, file_module,
    file_modules, insert_by_name, key_rest, line_description, manifest_step, name_order,
    one_line_text, is_public_item_line, public_item_count, public_prefixes, sorted_entries, string_close, total_items, triple_quote,
    without_comment, workspace_marker, DirEntry, ManifestState, ModuleView,
};
use crate::docs::{classify, items_of, submodules_of, uses_of, RustLine};
use crate::text::{
    before_char, char_free, first_index,
    all_in, lemma_keep_end, lemma_lead, lemma_trim_ends, lemma_trim_set_exact, starts_with,
    trim_set, trim_start_set, CharSet, dashed, decimal, digit, digit_value, digits_value, is_white_space, lines, newline_pieces,
    strip_cr, text_less, trim, trimmed_lines, underscored,
};
use crate::workspace::{
    dir_name_text,
    add_absent, dependency_entries, dependency_map_of, dependents_in, key_index, keys_unique,
    map_get, map_insert, package_deps, participants, workspace_deps_of,
};
use vstd::prelude::*;

verus! {

// ---------------------------------------------------------------------------
// Crate names

/// The identifier form of a name holds no `-`, and taking it twice changes
/// nothing.
pub proof fn law_underscored_idempotent(s: Seq<char>)
    ensures
        underscored(underscored(s)) == underscored(s),
        !underscored(s).contains('-'),
        underscored(s).len() == s.len(),
{
    assert(underscored(underscored(s)) =~= underscored(s));
}

// ---------------------------------------------------------------------------
// Sequence-diagram participants

proof fn lemma_add_absent(p: Seq<Seq<char>>, ds: Seq<Seq<char>>)
    ensures
        add_absent(p, ds).len() >= p.len(),
        add_absent(p, ds).take(p.len() as int) == p,
        forall|x: Seq<char>| #[trigger]
            add_absent(p, ds).contains(x) ==> p.contains(x) || exists|i: int|
                0 <= i < ds.len() && x == dashed(#[trigger] ds[i]),
    decreases ds.len(),
{
    if ds.len() > 0 {
        lemma_add_absent(p, ds.drop_last());
        let q = add_absent(p, ds.drop_last());
        let d = dashed(ds.last());
        assert(q.push(d).take(p.len() as int) =~= q.take(p.len() as int));
        assert forall|x: Seq<char>| #[trigger] add_absent(p, ds).contains(x) implies p.contains(x)
            || exists|i: int| 0 <= i < ds.len() && x == dashed(#[trigger] ds[i]) by {
            if q.contains(x) {
                if !p.contains(x) {
                    let i = choose|i: int|
                        0 <= i < ds.drop_last().len() && x == dashed(#[trigger] ds.drop_last()[i]);
                    assert(ds[i] == ds.drop_last()[i]);
                }
            } else {
                assert(x == d);
                assert(x == dashed(ds[ds.len() - 1]));
            }
        }
    }
}

/// A sequence diagram has between one and six participants, the crate first;
/// every other participant is the display form of a dependency or of a
/// dependent.
pub proof fn law_participants_shape(
    name: Seq<char>,
    deps: Seq<Seq<char>>,
    dependents: Seq<Seq<char>>,
)
    ensures
        1 <= participants(name, deps, dependents).len() <= 6,
        participants(name, deps, dependents)[0] == name,
        forall|x: Seq<char>| #[trigger]
            participants(name, deps, dependents).contains(x) ==> x == name || (exists|i: int|
                0 <= i < deps.len() && x == dashed(#[trigger] deps[i])) || (exists|i: int|
                0 <= i < dependents.len() && x == dashed(#[trigger] dependents[i])),
{
    let base = seq![name] + deps.map_values(|d: Seq<char>| dashed(d));
    lemma_add_absent(base, dependents);
    let all = add_absent(base, dependents);
    assert(all[0] == all.take(base.len() as int)[0]);
    let r = participants(name, deps, dependents);
    assert forall|x: Seq<char>| #[trigger] r.contains(x) implies x == name || (exists|i: int|
        0 <= i < deps.len() && x == dashed(#[trigger] deps[i])) || (exists|i: int|
        0 <= i < dependents.len() && x == dashed(#[trigger] dependents[i])) by {
        let j = choose|j: int| 0 <= j < r.len() && r[j] == x;
        assert(all[j] == x);
        assert(all.contains(x));
        if base.contains(x) {
            let k = choose|k: int| 0 <= k < base.len() && base[k] == x;
            if k > 0 {
                assert(x == dashed(deps[k - 1]));
            }
        }
    }
}

// ---------------------------------------------------------------------------
// The dependency map

proof fn lemma_key_index_found(m: Seq<(Seq<char>, Seq<Seq<char>>)>, k: Seq<char>)
    ensures
        key_index(m, k) matches Some(i) ==> 0 <= i < m.len() && m[i].0 == k,
        key_index(m, k) is None ==> forall|i: int| 0 <= i < m.len() ==> #[trigger] m[i].0 != k,
{
}

/// Some entry of the map has key `k`.
pub open spec fn has_key(m: Seq<(Seq<char>, Seq<Seq<char>>)>, k: Seq<char>) -> bool {
    exists|i: int| 0 <= i < m.len() && #[trigger] m[i].0 == k
}

proof fn lemma_dependents_char(m: Seq<(Seq<char>, Seq<Seq<char>>)>, k: Seq<char>, d: Seq<char>)
    ensures
        dependents_in(m, k).contains(d) <==> exists|i: int|
            0 <= i < m.len() && #[trigger] m[i].0 == d && m[i].1.contains(k),
    decreases m.len(),
{
    if m.len() > 0 {
        let rest = m.drop_last();
        lemma_dependents_char(rest, k, d);
        let r = dependents_in(rest, k);
        if dependents_in(m, k).contains(d) {
            if r.contains(d) {
                let i = choose|i: int| 0 <= i < rest.len() && #[trigger] rest[i].0 == d && rest[i].1.contains(k);
                assert(m[i] == rest[i]);
            } else {
                assert(m.last().1.contains(k));
                let j = choose|j: int| 0 <= j < r.push(m.last().0).len() && r.push(m.last().0)[j] == d;
                assert(j == r.len());
                assert(m[m.len() - 1].0 == d);
            }
        }
        if exists|i: int| 0 <= i < m.len() && #[trigger] m[i].0 == d && m[i].1.contains(k) {
            let i = choose|i: int| 0 <= i < m.len() && #[trigger] m[i].0 == d && m[i].1.contains(k);
            if i < m.len() - 1 {
                assert(rest[i] == m[i]);
                assert(r.contains(d));
                let j = choose|j: int| 0 <= j < r.len() && r[j] == d;
                if m.last().1.contains(k) {
                    assert(r.push(m.last().0)[j] == d);
                }
            } else {
                assert(r.push(m.last().0)[r.len() as int] == d);
            }
        }
    }
}

/// A crate lists `k` among its dependencies exactly when the dependents of
/// `k` name that crate: the two views of the map agree.
pub proof fn law_dependents_agree(
    m: Seq<(Seq<char>, Seq<Seq<char>>)>,
    k: Seq<char>,
    d: Seq<char>,
)
    requires
        keys_unique(m),
    ensures
        dependents_in(m, k).contains(d) <==> (has_key(m, d) && map_get(m, d).contains(k)),
{
    lemma_dependents_char(m, k, d);
    lemma_key_index_found(m, d);
    if has_key(m, d) {
        let i = key_index(m, d)->0;
        assert forall|j: int| 0 <= j < m.len() && #[trigger] m[j].0 == d implies j == i by {
            if j != i {
                if j < i {
                    assert(m[j].0 != m[i].0);
                } else {
                    assert(m[i].0 != m[j].0);
                }
            }
        }
    }
}

proof fn lemma_workspace_deps_in(deps: Seq<Seq<char>>, ws: Seq<Seq<char>>)
    ensures
        forall|x: Seq<char>| #[trigger] workspace_deps_of(deps, ws).contains(x) ==> ws.contains(x),
    decreases deps.len(),
{
    if deps.len() > 0 {
        lemma_workspace_deps_in(deps.drop_last(), ws);
        let rest = workspace_deps_of(deps.drop_last(), ws);
        let d = underscored(deps.last());
        assert forall|x: Seq<char>| #[trigger] workspace_deps_of(deps, ws).contains(x) implies ws.contains(
            x,
        ) by {
            if ws.contains(d) {
                let j = choose|j: int| 0 <= j < rest.push(d).len() && rest.push(d)[j] == x;
                if j < rest.len() {
                    assert(rest[j] == x);
                    assert(rest.contains(x));
                }
            } else {
                assert(rest.contains(x));
            }
        }
    }
}

proof fn lemma_package_deps_in(
    pkg: Seq<char>,
    nodes: Seq<(Seq<char>, Seq<Seq<char>>)>,
    ws: Seq<Seq<char>>,
)
    ensures
        forall|x: Seq<char>| #[trigger] package_deps(pkg, nodes, ws).contains(x) ==> ws.contains(x),
    decreases nodes.len(),
{
    if nodes.len() > 0 {
        lemma_package_deps_in(pkg, nodes.drop_last(), ws);
        lemma_workspace_deps_in(nodes.last().1, ws);
        let rest = package_deps(pkg, nodes.drop_last(), ws);
        let more = workspace_deps_of(nodes.last().1, ws);
        assert forall|x: Seq<char>| #[trigger] (rest + more).contains(x) implies ws.contains(x) by {
            let i = choose|i: int| 0 <= i < (rest + more).len() && (rest + more)[i] == x;
            if i < rest.len() {
                assert(rest.contains(x));
            } else {
                assert(more[i - rest.len()] == x);
                assert(more.contains(x));
            }
        }
    }
}

proof fn lemma_insert_keys(
    m: Seq<(Seq<char>, Seq<Seq<char>>)>,
    k: Seq<char>,
    v: Seq<Seq<char>>,
    ws: Seq<Seq<char>>,
)
    requires
        forall|i: int, x: Seq<char>| 0 <= i < m.len() && #[trigger] m[i].1.contains(x) ==> ws.contains(x),
        forall|x: Seq<char>| #[trigger] v.contains(x) ==> ws.contains(x),
    ensures
        forall|x: Seq<char>| #[trigger] has_key(map_insert(m, k, v), x) <==> (x == k || has_key(m, x)),
        forall|i: int, x: Seq<char>|
            0 <= i < map_insert(m, k, v).len() && #[trigger] map_insert(m, k, v)[i].1.contains(x)
                ==> ws.contains(x),
{
    lemma_key_index_found(m, k);
    let r = map_insert(m, k, v);
    assert forall|x: Seq<char>| #[trigger] has_key(r, x) <==> (x == k || has_key(m, x)) by {
        match key_index(m, k) {
            Some(j) => {
                if has_key(r, x) {
                    let i = choose|i: int| 0 <= i < r.len() && #[trigger] r[i].0 == x;
                    if i != j {
                        assert(m[i] == r[i]);
                    }
                }
                if x == k {
                    assert(r[j].0 == x);
                }
                if has_key(m, x) {
                    let i = choose|i: int| 0 <= i < m.len() && #[trigger] m[i].0 == x;
                    if i != j {
                        assert(r[i] == m[i]);
                    } else {
                        assert(r[j].0 == x);
                    }
                }
            },
            None => {
                if has_key(r, x) {
                    let i = choose|i: int| 0 <= i < r.len() && #[trigger] r[i].0 == x;
                    if i < m.len() {
                        assert(m[i] == r[i]);
                    }
                }
                if x == k {
                    assert(r[m.len() as int].0 == x);
                }
                if has_key(m, x) {
                    let i = choose|i: int| 0 <= i < m.len() && #[trigger] m[i].0 == x;
                    assert(r[i] == m[i]);
                }
            },
        }
    }
    assert forall|i: int, x: Seq<char>|
        0 <= i < r.len() && #[trigger] r[i].1.contains(x) implies ws.contains(x) by {
        match key_index(m, k) {
            Some(j) => {
                if i != j {
                    assert(r[i] == m[i]);
                }
            },
            None => {
                if i < m.len() {
                    assert(r[i] == m[i]);
                }
            },
        }
    }
}

proof fn lemma_entries_keys(
    pkgs: Seq<Seq<char>>,
    nodes: Option<Seq<(Seq<char>, Seq<Seq<char>>)>>,
    ws: Seq<Seq<char>>,
)
    ensures
        keys_unique(dependency_entries(pkgs, nodes, ws)),
        forall|k: Seq<char>| #[trigger]
            has_key(dependency_entries(pkgs, nodes, ws), k) <==> exists|p: int|
                0 <= p < pkgs.len() && underscored(#[trigger] pkgs[p]) == k,
        forall|i: int, x: Seq<char>|
            0 <= i < dependency_entries(pkgs, nodes, ws).len() && #[trigger] dependency_entries(
                pkgs,
                nodes,
                ws,
            )[i].1.contains(x) ==> ws.contains(x),
    decreases pkgs.len(),
{
    let m = dependency_entries(pkgs, nodes, ws);
    if pkgs.len() > 0 {
        let prev = pkgs.drop_last();
        lemma_entries_keys(prev, nodes, ws);
        let pm = dependency_entries(prev, nodes, ws);
        let key = underscored(pkgs.last());
        let deps = match nodes {
            Some(ns) => package_deps(pkgs.last(), ns, ws),
            None => Seq::empty(),
        };
        match nodes {
            Some(ns) => lemma_package_deps_in(pkgs.last(), ns, ws),
            None => {},
        }
        crate::workspace::lemma_insert_keeps_unique(pm, key, deps);
        lemma_insert_keys(pm, key, deps, ws);
        assert forall|k: Seq<char>| #[trigger] has_key(m, k) <==> exists|p: int|
            0 <= p < pkgs.len() && underscored(#[trigger] pkgs[p]) == k by {
            if has_key(m, k) && k != key {
                let p = choose|p: int| 0 <= p < prev.len() && underscored(#[trigger] prev[p]) == k;
                assert(pkgs[p] == prev[p]);
            }
            if k == key {
                assert(underscored(pkgs[pkgs.len() - 1]) == k);
            }
            if exists|p: int| 0 <= p < pkgs.len() && underscored(#[trigger] pkgs[p]) == k {
                let p = choose|p: int| 0 <= p < pkgs.len() && underscored(#[trigger] pkgs[p]) == k;
                if p < pkgs.len() - 1 {
                    assert(prev[p] == pkgs[p]);
                }
            }
        }
    }
}

/// The dependency map holds each crate once; its crates are exactly the
/// identifier forms of the workspace packages; and every dependency it lists
/// is one of them.
pub proof fn law_dependency_map_members(
    pkgs: Seq<Seq<char>>,
    nodes: Option<Seq<(Seq<char>, Seq<Seq<char>>)>>,
    k: Seq<char>,
    x: Seq<char>,
)
    ensures
        keys_unique(dependency_map_of(pkgs, nodes)),
        has_key(dependency_map_of(pkgs, nodes), k) <==> exists|p: int|
            0 <= p < pkgs.len() && underscored(#[trigger] pkgs[p]) == k,
        map_get(dependency_map_of(pkgs, nodes), k).contains(x) ==> exists|p: int|
            0 <= p < pkgs.len() && underscored(#[trigger] pkgs[p]) == x,
{
    let ws = pkgs.map_values(|p: Seq<char>| underscored(p));
    lemma_entries_keys(pkgs, nodes, ws);
    let m = dependency_map_of(pkgs, nodes);
    lemma_key_index_found(m, k);
    if map_get(m, k).contains(x) {
        let i = key_index(m, k)->0;
        assert(m[i].1.contains(x));
        assert(ws.contains(x));
        let p = choose|p: int| 0 <= p < ws.len() && ws[p] == x;
        assert(underscored(pkgs[p]) == x);
    }
}

// ---------------------------------------------------------------------------
// Ordering by name

proof fn lemma_less_irreflexive(a: Seq<char>)
    ensures
        !text_less(a, a),
    decreases a.len(),
{
    if a.len() > 0 {
        lemma_less_irreflexive(a.drop_first());
    }
}

proof fn lemma_less_asymmetric(a: Seq<char>, b: Seq<char>)
    ensures
        text_less(a, b) ==> !text_less(b, a),
    decreases a.len(),
{
    if a.len() > 0 && b.len() > 0 {
        lemma_less_asymmetric(a.drop_first(), b.drop_first());
    }
}

proof fn lemma_less_transitive(a: Seq<char>, b: Seq<char>, c: Seq<char>)
    ensures
        text_less(a, b) && text_less(b, c) ==> text_less(a, c),
    decreases a.len(),
{
    if a.len() > 0 && b.len() > 0 && c.len() > 0 {
        lemma_less_transitive(a.drop_first(), b.drop_first(), c.drop_first());
    }
}

proof fn lemma_less_total(a: Seq<char>, b: Seq<char>)
    ensures
        a != b ==> text_less(a, b) || text_less(b, a),
    decreases a.len(),
{
    if a.len() > 0 && b.len() > 0 {
        lemma_less_total(a.drop_first(), b.drop_first());
        if a[0] == b[0] && a.drop_first() == b.drop_first() {
            assert(a =~= seq![a[0]] + a.drop_first());
            assert(b =~= seq![b[0]] + b.drop_first());
        }
    } else if a.len() == 0 && b.len() == 0 {
        assert(a =~= b);
    }
}

/// The code-point order on texts is a strict total order.
pub proof fn law_text_order(a: Seq<char>, b: Seq<char>, c: Seq<char>)
    ensures
        !text_less(a, a),
        text_less(a, b) ==> !text_less(b, a),
        text_less(a, b) && text_less(b, c) ==> text_less(a, c),
        a != b ==> text_less(a, b) || text_less(b, a),
{
    lemma_less_irreflexive(a);
    lemma_less_asymmetric(a, b);
    lemma_less_transitive(a, b, c);
    lemma_less_total(a, b);
}

/// The positions hold their names in ascending order.
pub open spec fn ordered_by_name(order: Seq<int>, names: Seq<Seq<char>>) -> bool {
    forall|a: int, b: int|
        0 <= a < b < order.len() ==> !text_less(names[#[trigger] order[b]], names[#[trigger] order[a]])
}

/// No element occurs twice.
pub open spec fn distinct(s: Seq<int>) -> bool {
    forall|a: int, b: int| 0 <= a < b < s.len() ==> #[trigger] s[a] != #[trigger] s[b]
}

proof fn lemma_insert_by_name(order: Seq<int>, i: int, names: Seq<Seq<char>>)
    requires
        ordered_by_name(order, names),
    ensures
        ordered_by_name(insert_by_name(order, i, names), names),
        insert_by_name(order, i, names).len() == order.len() + 1,
        forall|x: int| #[trigger]
            insert_by_name(order, i, names).contains(x) <==> (x == i || order.contains(x)),
        distinct(order) && !order.contains(i) ==> distinct(insert_by_name(order, i, names)),
    decreases order.len(),
{
    let r = insert_by_name(order, i, names);
    if order.len() == 0 {
        assert(r =~= seq![i]);
        assert forall|x: int| #[trigger] r.contains(x) <==> (x == i || order.contains(x)) by {
            if x == i {
                assert(r[0] == x);
            }
        }
    } else if text_less(names[i], names[order[0]]) {
        assert(r =~= seq![i] + order);
        assert forall|a: int, b: int| 0 <= a < b < r.len() implies !text_less(
            names[#[trigger] r[b]],
            names[#[trigger] r[a]],
        ) by {
            if a == 0 {
                assert(r[b] == order[b - 1]);
                if b > 1 {
                    assert(!text_less(names[order[b - 1]], names[order[0]]));
                }
                law_text_order(names[i], names[order[0]], names[order[b - 1]]);
                law_text_order(names[order[b - 1]], names[i], names[order[0]]);
            } else {
                assert(r[a] == order[a - 1] && r[b] == order[b - 1]);
            }
        }
        assert forall|x: int| #[trigger] r.contains(x) <==> (x == i || order.contains(x)) by {
            if r.contains(x) {
                let j = choose|j: int| 0 <= j < r.len() && r[j] == x;
                if j > 0 {
                    assert(order[j - 1] == x);
                }
            }
            if order.contains(x) {
                let j = choose|j: int| 0 <= j < order.len() && order[j] == x;
                assert(r[j + 1] == x);
            }
            if x == i {
                assert(r[0] == x);
            }
        }
        if distinct(order) && !order.contains(i) {
            assert forall|a: int, b: int| 0 <= a < b < r.len() implies #[trigger] r[a]
                != #[trigger] r[b] by {
                if a == 0 {
                    assert(order[b - 1] == r[b]);
                } else {
                    assert(order[a - 1] == r[a] && order[b - 1] == r[b]);
                }
            }
        }
    } else {
        let rest = order.drop_first();
        assert(ordered_by_name(rest, names)) by {
            assert forall|a: int, b: int| 0 <= a < b < rest.len() implies !text_less(
                names[#[trigger] rest[b]],
                names[#[trigger] rest[a]],
            ) by {
                assert(rest[a] == order[a + 1] && rest[b] == order[b + 1]);
            }
        }
        if distinct(order) && !order.contains(i) {
            assert(distinct(rest)) by {
                assert forall|a: int, b: int| 0 <= a < b < rest.len() implies #[trigger] rest[a]
                    != #[trigger] rest[b] by {
                    assert(rest[a] == order[a + 1] && rest[b] == order[b + 1]);
                }
            }
            assert(!rest.contains(i)) by {
                if rest.contains(i) {
                    let q = choose|q: int| 0 <= q < rest.len() && rest[q] == i;
                    assert(order[q + 1] == i);
                }
            }
        }
        lemma_insert_by_name(rest, i, names);
        let t = insert_by_name(rest, i, names);
        assert(r =~= seq![order[0]] + t);
        assert forall|a: int, b: int| 0 <= a < b < r.len() implies !text_less(
            names[#[trigger] r[b]],
            names[#[trigger] r[a]],
        ) by {
            if a == 0 {
                assert(r[b] == t[b - 1]);
                assert(t.contains(t[b - 1]));
                if t[b - 1] != i {
                    assert(rest.contains(t[b - 1]));
                    let j = choose|j: int| 0 <= j < rest.len() && rest[j] == t[b - 1];
                    assert(order[j + 1] == t[b - 1]);
                }
            } else {
                assert(r[a] == t[a - 1] && r[b] == t[b - 1]);
            }
        }
        assert forall|x: int| #[trigger] r.contains(x) <==> (x == i || order.contains(x)) by {
            if r.contains(x) {
                let j = choose|j: int| 0 <= j < r.len() && r[j] == x;
                if j > 0 {
                    assert(t[j - 1] == x);
                    assert(t.contains(x));
                    if x != i {
                        let q = choose|q: int| 0 <= q < rest.len() && rest[q] == x;
                        assert(order[q + 1] == x);
                    }
                }
            }
            if order.contains(x) {
                let j = choose|j: int| 0 <= j < order.len() && order[j] == x;
                if j > 0 {
                    assert(rest[j - 1] == x);
                    assert(t.contains(x));
                    let q = choose|q: int| 0 <= q < t.len() && t[q] == x;
                    assert(r[q + 1] == x);
                } else {
                    assert(r[0] == x);
                }
            }
            if x == i {
                assert(t.contains(x));
                let q = choose|q: int| 0 <= q < t.len() && t[q] == x;
                assert(r[q + 1] == x);
            }
        }
        if distinct(order) && !order.contains(i) {
            assert forall|a: int, b: int| 0 <= a < b < r.len() implies #[trigger] r[a]
                != #[trigger] r[b] by {
                if a == 0 {
                    assert(r[b] == t[b - 1]);
                    assert(t.contains(t[b - 1]));
                    if t[b - 1] == order[0] {
                        assert(t[b - 1] != i);
                        assert(rest.contains(order[0]));
                        let q = choose|q: int| 0 <= q < rest.len() && rest[q] == order[0];
                        assert(order[q + 1] == order[0]);
                    }
                } else {
                    assert(r[a] == t[a - 1] && r[b] == t[b - 1]);
                }
            }
        }
    }
}

/// Placing positions one by one gives positions in ascending order of their
/// names, each of `0..n` exactly once.
pub proof fn law_name_order(names: Seq<Seq<char>>, n: nat)
    ensures
        ordered_by_name(name_order(names, n), names),
        name_order(names, n).len() == n,
        forall|x: int| #[trigger] name_order(names, n).contains(x) <==> 0 <= x < n,
        distinct(name_order(names, n)),
    decreases n,
{
    if n > 0 {
        law_name_order(names, (n - 1) as nat);
        let prev = name_order(names, (n - 1) as nat);
        lemma_insert_by_name(prev, n - 1, names);
    }
}

/// The entries of a directory come out in ascending order of their names,
/// each entry exactly once.
pub proof fn law_sorted_entries(es: Seq<DirEntry>)
    ensures
        sorted_entries(es).len() == es.len(),
        forall|a: int, b: int|
            0 <= a < b < es.len() ==> !text_less(
                #[trigger] sorted_entries(es)[b].name@,
                #[trigger] sorted_entries(es)[a].name@,
            ),
        forall|i: int| 0 <= i < es.len() ==> #[trigger] sorted_entries(es).contains(es[i]),
{
    let names = entry_names(es);
    law_name_order(names, es.len());
    let order = name_order(names, es.len());
    let s = sorted_entries(es);
    assert forall|a: int, b: int| 0 <= a < b < es.len() implies !text_less(
        #[trigger] s[b].name@,
        #[trigger] s[a].name@,
    ) by {
        assert(order.contains(order[a]) && order.contains(order[b]));
        assert(names[order[a]] == es[order[a]].name@);
        assert(names[order[b]] == es[order[b]].name@);
    }
    assert forall|i: int| 0 <= i < es.len() implies #[trigger] s.contains(es[i]) by {
        assert(order.contains(i));
        let j = choose|j: int| 0 <= j < order.len() && order[j] == i;
        assert(s[j] == es[i]);
    }
}

/// The item count of a directory splits over any split of its entries: the
/// count of `a` followed by `b` is the count of `a` plus the count of `b`.
pub proof fn law_total_items_concat(a: Seq<DirEntry>, b: Seq<DirEntry>)
    ensures
        total_items(a + b) == total_items(a) + total_items(b),
    decreases b.len(),
{
    if b.len() == 0 {
        assert(a + b =~= a);
    } else {
        assert((a + b).drop_last() =~= a + b.drop_last());
        assert((a + b).last() == b.last());
        law_total_items_concat(a, b.drop_last());
    }
}

/// A `.rs` file of the directory that is not a `mod` file.
pub open spec fn listed_file(e: DirEntry) -> bool {
    !e.is_dir && e.is_rs && e.stem@ != "mod"@
}

/// `l` is the stem of such a file among `es`.
pub open spec fn stem_of_listed_file(es: Seq<DirEntry>, l: Seq<char>) -> bool {
    exists|j: int| 0 <= j < es.len() && listed_file(es[j]) && #[trigger] es[j].stem@ == l
}

proof fn lemma_labels_from_files(s: Seq<DirEntry>)
    ensures
        forall|i: int|
            0 <= i < child_labels(s).len() ==> stem_of_listed_file(s, #[trigger] child_labels(s)[i]),
    decreases s.len(),
{
    if s.len() > 0 {
        let p = s.drop_last();
        lemma_labels_from_files(p);
        let r = child_labels(p);
        assert forall|i: int| 0 <= i < child_labels(s).len() implies stem_of_listed_file(
            s,
            #[trigger] child_labels(s)[i],
        ) by {
            if i < r.len() {
                assert(child_labels(s)[i] == r[i]);
                assert(stem_of_listed_file(p, r[i]));
                let k = choose|k: int| 0 <= k < p.len() && listed_file(p[k]) && #[trigger] p[k].stem@ == r[i];
                assert(s[k] == p[k]);
            } else {
                assert(s[s.len() - 1] == s.last());
            }
        }
    }
}

proof fn lemma_files_in_labels(s: Seq<DirEntry>)
    ensures
        forall|k: int|
            0 <= k < s.len() && listed_file(#[trigger] s[k]) ==> child_labels(s).contains(
                s[k].stem@,
            ),
    decreases s.len(),
{
    if s.len() > 0 {
        let p = s.drop_last();
        lemma_files_in_labels(p);
        assert forall|k: int|
            0 <= k < s.len() && listed_file(#[trigger] s[k]) implies child_labels(s).contains(
            s[k].stem@,
        ) by {
            let r = child_labels(p);
            if k < p.len() {
                assert(s[k] == p[k]);
                let m = choose|m: int| 0 <= m < r.len() && r[m] == p[k].stem@;
                if listed_file(s.last()) {
                    assert(child_labels(s)[m] == r[m]);
                } else {
                    assert(child_labels(s) == r);
                }
            } else {
                assert(s[k] == s.last());
                assert(child_labels(s)[r.len() as int] == s[k].stem@);
            }
        }
    }
}

/// Every `.rs` file of the directory other than a `mod` file is listed by
/// its stem.
pub proof fn law_listing_covers_rs_files(es: Seq<DirEntry>)
    ensures
        forall|j: int|
            0 <= j < es.len() && listed_file(#[trigger] es[j]) ==> child_labels(
                sorted_entries(es),
            ).contains(es[j].stem@),
{
    let s = sorted_entries(es);
    law_sorted_entries(es);
    lemma_files_in_labels(s);
    assert forall|j: int| 0 <= j < es.len() && listed_file(#[trigger] es[j]) implies child_labels(
        s,
    ).contains(es[j].stem@) by {
        assert(s.contains(es[j]));
        let k = choose|k: int| 0 <= k < s.len() && s[k] == es[j];
        assert(listed_file(s[k]));
    }
}

/// What a directory walk lists are the stems of the directory's `.rs`
/// files, `mod` left out; subdirectories and other files are not listed.
pub proof fn law_listing_names_rs_files(es: Seq<DirEntry>)
    ensures
        forall|i: int|
            0 <= i < child_labels(sorted_entries(es)).len() ==> stem_of_listed_file(
                es,
                #[trigger] child_labels(sorted_entries(es))[i],
            ),
{
    let s = sorted_entries(es);
    let order = name_order(entry_names(es), es.len());
    law_name_order(entry_names(es), es.len());
    lemma_labels_from_files(s);
    assert forall|i: int| 0 <= i < child_labels(s).len() implies stem_of_listed_file(
        es,
        #[trigger] child_labels(s)[i],
    ) by {
        let l = child_labels(s)[i];
        assert(stem_of_listed_file(s, l));
        let k = choose|k: int| 0 <= k < s.len() && listed_file(s[k]) && #[trigger] s[k].stem@ == l;
        assert(order.contains(order[k]));
        assert(s[k] == es[order[k]]);
    }
}

// ---------------------------------------------------------------------------
// Decimal notation

proof fn lemma_digit_value(d: nat)
    requires
        d < 10,
    ensures
        digit_value(digit(d)) == d,
        '0' <= digit(d) <= '9',
        d > 0 ==> digit(d) != '0',
{
    assert(('0' as int) == 48);
    assert(('9' as int) == 57);
    assert(('5' as int) == 53);
}

/// The decimal notation of `n` denotes `n`, uses only digits, and starts with
/// `0` only when `n` is zero.
pub proof fn law_decimal(n: nat)
    ensures
        digits_value(decimal(n)) == n,
        decimal(n).len() >= 1,
        forall|i: int| 0 <= i < decimal(n).len() ==> '0' <= #[trigger] decimal(n)[i] <= '9',
        n > 0 ==> decimal(n)[0] != '0',
    decreases n,
{
    lemma_digit_value(n % 10);
    if n < 10 {
        assert(decimal(n).drop_last() =~= Seq::<char>::empty());
        assert(digits_value(decimal(n)) == digits_value(Seq::<char>::empty()) * 10 + digit_value(
            digit(n),
        ));
    } else {
        law_decimal(n / 10);
        let p = decimal(n / 10);
        assert(decimal(n).drop_last() =~= p);
        assert(decimal(n)[0] == p[0]);
        assert(n == (n / 10) * 10 + n % 10);
        assert(digits_value(decimal(n)) == digits_value(p) * 10 + digit_value(digit(n % 10)));
    }
}

// ---------------------------------------------------------------------------
// Trimming

/// Trimming white space twice is trimming it once.
pub proof fn law_trim_idempotent(s: Seq<char>)
    ensures
        trim(trim(s)) == trim(s),
        trim(s).len() > 0 ==> !is_white_space(trim(s)[0]) && !is_white_space(trim(s).last()),
{
    crate::text::lemma_trim_ends(s);
    crate::text::lemma_trim_ends(trim(s));
}

// ---------------------------------------------------------------------------
// Lines and item counts

proof fn lemma_pieces_len(s: Seq<char>)
    ensures
        newline_pieces(s).len() >= 1,
        s.len() == 0 || s.last() == '\n' ==> newline_pieces(s).last().len() == 0,
    decreases s.len(),
{
    if s.len() > 0 {
        lemma_pieces_len(s.drop_last());
    }
}

proof fn lemma_pieces_concat(a: Seq<char>, b: Seq<char>)
    requires
        a.len() == 0 || a.last() == '\n',
    ensures
        newline_pieces(a + b) == newline_pieces(a).drop_last() + newline_pieces(b),
    decreases b.len(),
{
    lemma_pieces_len(a);
    lemma_pieces_len(b);
    let p = newline_pieces(a).drop_last();
    if b.len() == 0 {
        assert(a + b =~= a);
        assert(newline_pieces(a) =~= p + seq![Seq::<char>::empty()]);
    } else {
        let b1 = b.drop_last();
        lemma_pieces_concat(a, b1);
        lemma_pieces_len(b1);
        assert((a + b).drop_last() =~= a + b1);
        assert((a + b).last() == b.last());
        let q = newline_pieces(b1);
        if b.last() == '\n' {
            assert(newline_pieces(a + b) =~= (p + q).push(Seq::empty()));
            assert((p + q).push(Seq::empty()) =~= p + q.push(Seq::empty()));
        } else {
            let pq = p + q;
            assert(pq.last() == q.last());
            assert(pq.update(pq.len() - 1, pq.last().push(b.last())) =~= p + q.update(
                q.len() - 1,
                q.last().push(b.last()),
            ));
        }
    }
}

/// The lines of two texts written one after the other, the first empty or
/// ending in a line break, are the lines of the first and then those of the
/// second.
pub proof fn law_lines_concat(a: Seq<char>, b: Seq<char>)
    requires
        a.len() == 0 || a.last() == '\n',
    ensures
        lines(a + b) == lines(a) + lines(b),
        trimmed_lines(a + b) == trimmed_lines(a) + trimmed_lines(b),
{
    lemma_pieces_concat(a, b);
    lemma_pieces_len(a);
    lemma_pieces_len(b);
    let p = newline_pieces(a).drop_last();
    let q = newline_pieces(b);
    assert((p + q).drop_last() =~= p + q.drop_last());
    assert((p + q).last() == q.last());
    assert(lines(a) =~= p.map_values(|l: Seq<char>| strip_cr(l)));
    assert((p + q.drop_last()).map_values(|l: Seq<char>| strip_cr(l)) =~= p.map_values(
        |l: Seq<char>| strip_cr(l),
    ) + q.drop_last().map_values(|l: Seq<char>| strip_cr(l)));
    if q.last().len() == 0 {
        assert(lines(a + b) =~= lines(a) + lines(b));
    } else {
        assert(lines(a + b) =~= lines(a) + lines(b));
    }
    assert(trimmed_lines(a + b) =~= trimmed_lines(a) + trimmed_lines(b));
}

proof fn lemma_count_concat(x: Seq<Seq<char>>, y: Seq<Seq<char>>)
    ensures
        public_item_count(x + y) == public_item_count(x) + public_item_count(y),
    decreases y.len(),
{
    if y.len() == 0 {
        assert(x + y =~= x);
    } else {
        lemma_count_concat(x, y.drop_last());
        assert((x + y).drop_last() =~= x + y.drop_last());
        assert((x + y).last() == y.last());
    }
}

/// The public items of two texts written one after the other, the first
/// empty or ending in a line break, are counted as the sum of their counts;
/// and a text never declares more public items than it has lines.
pub proof fn law_item_count_adds_up(a: Seq<char>, b: Seq<char>)
    requires
        a.len() == 0 || a.last() == '\n',
    ensures
        public_item_count(trimmed_lines(a + b)) == public_item_count(trimmed_lines(a))
            + public_item_count(trimmed_lines(b)),
        public_item_count(trimmed_lines(a)) <= lines(a).len(),
{
    law_lines_concat(a, b);
    lemma_count_concat(trimmed_lines(a), trimmed_lines(b));
    lemma_count_bounded(trimmed_lines(a));
}

proof fn lemma_count_bounded(x: Seq<Seq<char>>)
    ensures
        public_item_count(x) <= x.len(),
    decreases x.len(),
{
    if x.len() > 0 {
        lemma_count_bounded(x.drop_last());
    }
}

// ---------------------------------------------------------------------------
// Module entries of the compact pages

proof fn lemma_file_modules_shape(es: Seq<DirEntry>)
    ensures
        forall|i: int|
            0 <= i < file_modules(es).len() ==> {
                let m = #[trigger] file_modules(es)[i];
                &&& !m.is_dir
                &&& m.path == m.display
                &&& m.children.len() == 0
                &&& m.path != "mod"@
            },
    decreases es.len(),
{
    if es.len() > 0 {
        lemma_file_modules_shape(es.drop_last());
        let r = file_modules(es.drop_last());
        assert forall|i: int| 0 <= i < file_modules(es).len() implies {
            let m = #[trigger] file_modules(es)[i];
            &&& !m.is_dir
            &&& m.path == m.display
            &&& m.children.len() == 0
            &&& m.path != "mod"@
        } by {
            if i < r.len() {
                assert(file_modules(es)[i] == r[i]);
            }
        }
    }
}

proof fn lemma_dir_modules_shape(es: Seq<DirEntry>)
    ensures
        forall|i: int|
            0 <= i < dir_modules(es).len() ==> {
                let m = #[trigger] dir_modules(es)[i];
                &&& m.is_dir
                &&& m.path == m.display
                &&& m.display.len() > 0
                &&& m.display.last() == '/'
            },
    decreases es.len(),
{
    reveal_strlit("/");
    if es.len() > 0 {
        lemma_dir_modules_shape(es.drop_last());
        let r = dir_modules(es.drop_last());
        assert forall|i: int| 0 <= i < dir_modules(es).len() implies {
            let m = #[trigger] dir_modules(es)[i];
            &&& m.is_dir
            &&& m.path == m.display
            &&& m.display.len() > 0
            &&& m.display.last() == '/'
        } by {
            if i < r.len() {
                assert(dir_modules(es)[i] == r[i]);
            } else {
                let e = es.last();
                assert((e.name@ + "/"@).last() == "/"@[0]);
            }
        }
    }
}

/// On a compact page the source files come first, then the directories; a
/// file is shown by its stem with no children and is never `mod`; a
/// directory is shown with a trailing `/`.
pub proof fn law_module_entries(es: Seq<DirEntry>)
    ensures
        ({
            let ms = file_modules(sorted_entries(es)) + dir_modules(sorted_entries(es));
            let nf = file_modules(sorted_entries(es)).len();
            &&& forall|i: int|
                0 <= i < nf ==> {
                    let m = #[trigger] ms[i];
                    !m.is_dir && m.path == m.display && m.children.len() == 0 && m.path != "mod"@
                }
            &&& forall|i: int|
                nf <= i < ms.len() ==> {
                    let m = #[trigger] ms[i];
                    m.is_dir && m.path == m.display && m.display.len() > 0 && m.display.last()
                        == '/'
                }
        }),
{
    let s = sorted_entries(es);
    lemma_file_modules_shape(s);
    lemma_dir_modules_shape(s);
    let f = file_modules(s);
    let d = dir_modules(s);
    assert forall|i: int| f.len() <= i < (f + d).len() implies (f + d)[i] == d[i - f.len()] by {}
}

// ---------------------------------------------------------------------------
// Reading the manifest

proof fn lemma_basic_close(r: Seq<char>, i: int, e: int)
    requires
        1 <= i <= e < r.len(),
        r[e] == '"',
        forall|j: int| i <= j < e ==> r[j] != '"' && r[j] != '\\',
    ensures
        basic_close(r, i) == e,
    decreases e - i,
{
    if i < e {
        lemma_basic_close(r, i + 1, e);
    }
}

proof fn lemma_trim_empty(set: CharSet)
    ensures
        trim_set(Seq::<char>::empty(), set) == Seq::<char>::empty(),
        trim_start_set(Seq::<char>::empty(), set) == Seq::<char>::empty(),
{
    let e = Seq::<char>::empty();
    assert(all_in(e, set));
    assert(e.skip(0) =~= e);
    assert(e.take(0) =~= e);
}

/// The text between the quotes of `"s"` when `s` holds no `"` or `\`, and
/// does not start or end with `'`.
proof fn lemma_quoted_text(s: Seq<char>)
    requires
        forall|j: int| 0 <= j < s.len() ==> s[j] != '"' && s[j] != '\\',
        s.len() == 0 || (s[0] != '\'' && s.last() != '\''),
    ensures
        trim_set(trim_set(seq!['"'] + s + seq!['"'], CharSet::Only('"')), CharSet::Only('\''))
            == s,
{
    let q = seq!['"'] + s + seq!['"'];
    let n = q.len() as int;
    let dq = CharSet::Only('"');
    let sq = CharSet::Only('\'');
    if s.len() == 0 {
        assert(all_in(q, dq));
        lemma_lead(q, dq, n);
        assert(q.skip(n) =~= Seq::<char>::empty());
        lemma_trim_empty(dq);
        lemma_trim_empty(sq);
        assert(s =~= Seq::<char>::empty());
    } else {
        assert(all_in(q.take(1), dq));
        assert(all_in(q.skip(n - 1), dq));
        assert(q[1] == s[0]);
        assert(q[n - 2] == s.last());
        lemma_trim_set_exact(q, dq, 1, n - 1);
        assert(q.subrange(1, n - 1) =~= s);
        assert(all_in(s.take(0), sq));
        assert(all_in(s.skip(s.len() as int), sq));
        lemma_trim_set_exact(s, sq, 0, s.len() as int);
        assert(s.subrange(0, s.len() as int) =~= s);
    }
}

#[verifier::rlimit(40)]
proof fn lemma_close_of_quoted(s: Seq<char>, tail: Seq<char>)
    requires
        forall|j: int| 0 <= j < s.len() ==> s[j] != '"' && s[j] != '\\',
    ensures
        string_close(seq!['"'] + s + seq!['"'] + tail) == Some(s.len() + 1int),
{
    let q = seq!['"'] + s + seq!['"'];
    let r = q + tail;
    let n = q.len() as int;
    assert forall|j: int| 1 <= j < n - 1 implies r[j] != '"' && r[j] != '\\' by {
        assert(r[j] == s[j - 1]);
    }
    assert(r[n - 1] == '"');
    lemma_basic_close(r, 1, n - 1);
    assert(r[0] == '"');
}

#[verifier::rlimit(40)]
proof fn lemma_no_comment(s: Seq<char>)
    requires
        forall|j: int| 0 <= j < s.len() ==> s[j] != '"' && s[j] != '\\',
    ensures
        without_comment(seq!['"'] + s + seq!['"']) == seq!['"'] + s + seq!['"'],
{
    let q = seq!['"'] + s + seq!['"'];
    let n = q.len() as int;
    reveal_strlit("#");
    lemma_close_of_quoted(s, Seq::empty());
    assert(q + Seq::<char>::empty() =~= q);
    assert(q.skip(n) =~= Seq::<char>::empty());
    lemma_trim_empty(CharSet::WhiteSpace);
    assert(!starts_with(Seq::<char>::empty(), "#"@));
}

#[verifier::rlimit(40)]
proof fn lemma_comment_left_out(s: Seq<char>, w: Seq<char>, c: Seq<char>)
    requires
        forall|j: int| 0 <= j < s.len() ==> s[j] != '"' && s[j] != '\\',
        forall|j: int| 0 <= j < w.len() ==> is_white_space(#[trigger] w[j]),
    ensures
        without_comment(seq!['"'] + s + seq!['"'] + w + seq!['#'] + c) == seq!['"'] + s
            + seq!['"'],
{
    let q = seq!['"'] + s + seq!['"'];
    let n = q.len() as int;
    let tail = w + seq!['#'] + c;
    let r = q + tail;
    assert(r =~= seq!['"'] + s + seq!['"'] + w + seq!['#'] + c);
    reveal_strlit("#");
    lemma_close_of_quoted(s, tail);
    assert(r.skip(n) =~= tail);
    assert(all_in(tail.take(w.len() as int), CharSet::WhiteSpace)) by {
        assert forall|j: int| 0 <= j < w.len() implies CharSet::WhiteSpace.has(
            #[trigger] tail.take(w.len() as int)[j],
        ) by {
            assert(tail.take(w.len() as int)[j] == w[j]);
        }
    }
    assert(tail[w.len() as int] == '#');
    lemma_lead(tail, CharSet::WhiteSpace, w.len() as int);
    let lead = trim_start_set(tail, CharSet::WhiteSpace);
    assert(lead =~= seq!['#'] + c);
    assert(lead.take(1) =~= "#"@);
    assert(r.take(n) =~= q);
}

/// A one-line description written as a `"` string is the whole text between
/// its quotes, a `#` inside it included; a `#` comment after the closing
/// quote is left out. (The text holds no `"` or `\`, and does not start or
/// end with `'`, which the reading strips.)
#[verifier::rlimit(40)]
pub proof fn law_quoted_description_kept(s: Seq<char>, w: Seq<char>, c: Seq<char>)
    requires
        forall|j: int| 0 <= j < s.len() ==> s[j] != '"' && s[j] != '\\',
        s.len() == 0 || (s[0] != '\'' && s.last() != '\''),
        forall|j: int| 0 <= j < w.len() ==> is_white_space(#[trigger] w[j]),
    ensures
        one_line_text(seq!['"'] + s + seq!['"']) == s,
        one_line_text(seq!['"'] + s + seq!['"'] + w + seq!['#'] + c) == s,
{
    lemma_quoted_text(s);
    lemma_no_comment(s);
    lemma_comment_left_out(s, w, c);
}

#[verifier::rlimit(40)]
proof fn lemma_description_rest(q: Seq<char>)
    requires
        q.len() >= 2,
        q[0] == '"',
        q.last() == '"',
    ensures
        key_rest("description = "@ + q, "description"@) == Some(q),
{
    reveal_strlit("description = ");
    reveal_strlit("description");
    let t = "description = "@ + q;
    assert(t.take(11) =~= "description"@);
    let after = t.skip(11);
    assert(after =~= seq![' ', '=', ' '] + q);
    assert(all_in(after.take(3), CharSet::SpaceOrEquals)) by {
        assert forall|j: int| 0 <= j < 3 implies CharSet::SpaceOrEquals.has(
            #[trigger] after.take(3)[j],
        ) by {
            assert(after.take(3)[j] == after[j]);
        }
    }
    assert(after[3] == '"');
    lemma_lead(after, CharSet::SpaceOrEquals, 3);
    assert(after.skip(3) =~= q);
    lemma_trim_ends(q);
}

proof fn lemma_plain_string_value(s: Seq<char>)
    requires
        s.len() > 0,
        s[0] != '"',
    ensures
        !workspace_marker(seq!['"'] + s + seq!['"']),
        !starts_with(seq!['"'] + s + seq!['"'], triple_quote()),
{
    reveal_strlit(".workspace");
    let q = seq!['"'] + s + seq!['"'];
    if starts_with(q, ".workspace"@) {
        assert(q.take(10)[0] == q[0]);
    }
    if starts_with(q, triple_quote()) {
        assert(q.take(3)[1] == q[1]);
        assert(q[1] == s[0]);
    }
}

/// A `[package]` line `description = "s"` sets the description to `s`, a
/// `#` inside it included, when `s` is not empty, `workspace` or `true`.
#[verifier::rlimit(40)]
pub proof fn law_description_line(old: Seq<char>, s: Seq<char>)
    requires
        forall|j: int| 0 <= j < s.len() ==> s[j] != '"' && s[j] != '\\',
        s.len() == 0 || (s[0] != '\'' && s.last() != '\''),
        s.len() > 0,
        s != "workspace"@,
        s != "true"@,
    ensures
        line_description(old, "description = "@ + (seq!['"'] + s + seq!['"'])) == (
            s,
            None::<Seq<Seq<char>>>,
        ),
{
    let q = seq!['"'] + s + seq!['"'];
    lemma_description_rest(q);
    lemma_plain_string_value(s);
    law_quoted_description_kept(s, Seq::empty(), Seq::empty());
    assert(description_value(old, q) == (s, None::<Seq<Seq<char>>>));
}

/// Inside `[package]`, with no multi-line description open, the line
/// `description = "s"` makes `s` the description and leaves the version as
/// it was, when `s` is not empty, `workspace` or `true`.
#[verifier::rlimit(40)]
pub proof fn law_description_step(st: ManifestState, s: Seq<char>)
    requires
        st.in_package,
        st.pending is None,
        forall|j: int| 0 <= j < s.len() ==> s[j] != '"' && s[j] != '\\',
        s.len() == 0 || (s[0] != '\'' && s.last() != '\''),
        s.len() > 0,
        s != "workspace"@,
        s != "true"@,
    ensures
        manifest_step(st, "description = "@ + (seq!['"'] + s + seq!['"'])).description == s,
        manifest_step(st, "description = "@ + (seq!['"'] + s + seq!['"'])).version == st.version,
        manifest_step(st, "description = "@ + (seq!['"'] + s + seq!['"'])).in_package,
{
    reveal(manifest_step);
    reveal_strlit("description = ");
    reveal_strlit("[package]");
    reveal_strlit("version");
    let q = seq!['"'] + s + seq!['"'];
    let l = "description = "@ + q;
    assert(l[0] == 'd');
    assert(l.last() == '"');
    lemma_trim_ends(l);
    assert(l != "[package]"@) by {
        if l == "[package]"@ {
            assert(l[0] == "[package]"@[0]);
        }
    }
    assert(!starts_with(l, "version"@)) by {
        if starts_with(l, "version"@) {
            assert(l.take(7)[0] == l[0]);
        }
    }
    law_description_line(st.description, s);
}

// ---------------------------------------------------------------------------
// Module entries of a compact page

/// A top-level `.rs` entry whose stem is not `mod`.
pub open spec fn module_file(e: DirEntry) -> bool {
    e.is_rs && e.stem@ != "mod"@
}

/// A file shown on the page by its stem, with its item count and no children.
pub open spec fn shows_file(m: ModuleView, e: DirEntry) -> bool {
    &&& m.path == e.stem@
    &&& m.display == e.stem@
    &&& m.item_count == e.file_items as nat
    &&& m.children.len() == 0
    &&& !m.is_dir
}

/// Some module of `ms` shows the file `e`.
pub open spec fn file_shown(ms: Seq<ModuleView>, e: DirEntry) -> bool {
    exists|i: int| 0 <= i < ms.len() && shows_file(#[trigger] ms[i], e)
}

/// The module `m` shows some top-level `.rs` entry of `es` whose stem is not `mod`.
pub open spec fn shows_module_file(m: ModuleView, es: Seq<DirEntry>) -> bool {
    exists|j: int| 0 <= j < es.len() && module_file(es[j]) && shows_file(m, #[trigger] es[j])
}

proof fn lemma_file_modules_from(s: Seq<DirEntry>)
    ensures
        forall|k: int| 0 <= k < s.len() && module_file(#[trigger] s[k]) ==> file_shown(file_modules(s), s[k]),
        forall|i: int| 0 <= i < file_modules(s).len() ==> shows_module_file(#[trigger] file_modules(s)[i], s),
    decreases s.len(),
{
    if s.len() > 0 {
        let p = s.drop_last();
        lemma_file_modules_from(p);
        let r = file_modules(p);
        let f = file_modules(s);
        assert forall|k: int| 0 <= k < s.len() && module_file(#[trigger] s[k]) implies file_shown(f, s[k]) by {
            if k < p.len() {
                assert(s[k] == p[k]);
                assert(module_file(p[k]));
                assert(file_shown(r, p[k]));
                let i = choose|i: int| 0 <= i < r.len() && shows_file(#[trigger] r[i], p[k]);
                assert(f[i] == r[i]);
            } else {
                assert(s[k] == s.last());
                assert(f[r.len() as int] == file_module(s.last()));
            }
        }
        assert forall|i: int| 0 <= i < f.len() implies shows_module_file(#[trigger] f[i], s) by {
            if i < r.len() {
                assert(f[i] == r[i]);
                assert(shows_module_file(r[i], p));
                let k = choose|k: int| 0 <= k < p.len() && module_file(p[k]) && shows_file(r[i], #[trigger] p[k]);
                assert(s[k] == p[k]);
            } else {
                assert(s[s.len() - 1] == s.last());
            }
        }
    }
}

/// The file modules of a compact page: every top-level `.rs` entry whose
/// stem is not `mod` (`lib` and `main` among them) is shown by its stem with
/// its item count, and every file module shown is such an entry.
pub proof fn law_file_modules_complete(es: Seq<DirEntry>)
    ensures
        forall|j: int|
            0 <= j < es.len() && module_file(#[trigger] es[j]) ==> file_shown(
                file_modules(sorted_entries(es)),
                es[j],
            ),
        forall|i: int|
            0 <= i < file_modules(sorted_entries(es)).len() ==> shows_module_file(
                #[trigger] file_modules(sorted_entries(es))[i],
                es,
            ),
{
    let s = sorted_entries(es);
    let f = file_modules(s);
    law_sorted_entries(es);
    law_name_order(entry_names(es), es.len());
    let order = name_order(entry_names(es), es.len());
    lemma_file_modules_from(s);
    assert forall|j: int| 0 <= j < es.len() && module_file(#[trigger] es[j]) implies file_shown(f, es[j]) by {
        assert(s.contains(es[j]));
        let k = choose|k: int| 0 <= k < s.len() && s[k] == es[j];
        assert(module_file(s[k]));
    }
    assert forall|i: int| 0 <= i < f.len() implies shows_module_file(#[trigger] f[i], es) by {
        assert(shows_module_file(f[i], s));
        let k = choose|k: int| 0 <= k < s.len() && module_file(s[k]) && shows_file(f[i], #[trigger] s[k]);
        assert(order.contains(order[k]));
        assert(s[k] == es[order[k]]);
    }
}

// ---------------------------------------------------------------------------
// Counting public items

/// The beginnings of a trimmed line that declare a public item: `pub` or
/// `pub(crate)` before `fn`, `async fn`, `struct`, `enum`, `trait`, `type`,
/// `const` and `static`, and `pub(super) fn`.
pub open spec fn declares_public(p: Seq<char>) -> bool {
    ||| p == "pub fn "@
    ||| p == "pub async fn "@
    ||| p == "pub(crate) fn "@
    ||| p == "pub(super) fn "@
    ||| p == "pub(crate) async fn "@
    ||| p == "pub struct "@
    ||| p == "pub(crate) struct "@
    ||| p == "pub enum "@
    ||| p == "pub(crate) enum "@
    ||| p == "pub trait "@
    ||| p == "pub(crate) trait "@
    ||| p == "pub type "@
    ||| p == "pub(crate) type "@
    ||| p == "pub const "@
    ||| p == "pub(crate) const "@
    ||| p == "pub static "@
    ||| p == "pub(crate) static "@
}

proof fn lemma_listed_prefixes()
    ensures
        forall|p: Seq<char>| declares_public(p) ==> public_prefixes().contains(p),
        forall|k: int| 0 <= k < public_prefixes().len() ==> declares_public(#[trigger] public_prefixes()[k]),
{
    let ps = public_prefixes();
    assert(ps.len() == 17);
    assert(ps[0] == "pub fn "@);
    assert(ps[1] == "pub async fn "@);
    assert(ps[2] == "pub(crate) fn "@);
    assert(ps[3] == "pub(super) fn "@);
    assert(ps[4] == "pub(crate) async fn "@);
    assert(ps[5] == "pub struct "@);
    assert(ps[6] == "pub(crate) struct "@);
    assert(ps[7] == "pub enum "@);
    assert(ps[8] == "pub(crate) enum "@);
    assert(ps[9] == "pub trait "@);
    assert(ps[10] == "pub(crate) trait "@);
    assert(ps[11] == "pub type "@);
    assert(ps[12] == "pub(crate) type "@);
    assert(ps[13] == "pub const "@);
    assert(ps[14] == "pub(crate) const "@);
    assert(ps[15] == "pub static "@);
    assert(ps[16] == "pub(crate) static "@);
}

/// A trimmed line counts as one public item exactly when it starts with one
/// of the public beginnings, whatever follows; so a text's count grows by one
/// with each such line added at its end and stays with any other line.
pub proof fn law_public_item_lines(ls: Seq<Seq<char>>, p: Seq<char>, x: Seq<char>, t: Seq<char>)
    ensures
        declares_public(p) ==> is_public_item_line(p + x),
        declares_public(p) ==> public_item_count(ls.push(p + x)) == public_item_count(ls) + 1,
        is_public_item_line(t) <==> exists|q: Seq<char>| declares_public(q) && #[trigger] starts_with(t, q),
        !is_public_item_line(t) ==> public_item_count(ls.push(t)) == public_item_count(ls),
{
    lemma_listed_prefixes();
    let ps = public_prefixes();
    if declares_public(p) {
        assert(ps.contains(p));
        let k = choose|k: int| 0 <= k < ps.len() && ps[k] == p;
        assert((p + x).take(p.len() as int) =~= p);
        assert(starts_with(p + x, ps[k]));
        assert(ls.push(p + x).drop_last() =~= ls);
    }
    if is_public_item_line(t) {
        let k = choose|k: int| 0 <= k < ps.len() && starts_with(t, #[trigger] ps[k]);
        assert(declares_public(ps[k]));
    }
    if exists|q: Seq<char>| declares_public(q) && #[trigger] starts_with(t, q) {
        let q = choose|q: Seq<char>| declares_public(q) && #[trigger] starts_with(t, q);
        assert(ps.contains(q));
        let k = choose|k: int| 0 <= k < ps.len() && ps[k] == q;
        assert(starts_with(t, ps[k]));
    }
    assert(ls.push(t).drop_last() =~= ls);
}

// ---------------------------------------------------------------------------
// Items of a Rust source text

/// The items, submodules and `use` paths of a text made of two runs of
/// lines are those of the first run followed by those of the second: each
/// declaring line gives its entry, an entry that came before included.
pub proof fn law_source_parts(a: Seq<Seq<char>>, b: Seq<Seq<char>>)
    ensures
        items_of(a + b) == items_of(a) + items_of(b),
        submodules_of(a + b) == submodules_of(a) + submodules_of(b),
        uses_of(a + b) == uses_of(a) + uses_of(b),
    decreases b.len(),
{
    if b.len() == 0 {
        assert(a + b =~= a);
        assert(items_of(a) + items_of(b) =~= items_of(a));
        assert(submodules_of(a) + submodules_of(b) =~= submodules_of(a));
        assert(uses_of(a) + uses_of(b) =~= uses_of(a));
    } else {
        let p = b.drop_last();
        law_source_parts(a, p);
        assert((a + b).drop_last() =~= a + p);
        assert((a + b).last() == b.last());
        match classify(b.last()) {
            RustLine::Item(x) => {
                assert(items_of(a) + items_of(p).push(x) =~= (items_of(a) + items_of(p)).push(x));
            },
            RustLine::Submodule(x) => {
                assert(submodules_of(a) + submodules_of(p).push(x) =~= (submodules_of(a)
                    + submodules_of(p)).push(x));
            },
            RustLine::Use(x) => {
                assert(uses_of(a) + uses_of(p).push(x) =~= (uses_of(a) + uses_of(p)).push(x));
            },
            RustLine::Other => {},
        }
    }
}

proof fn lemma_first_index(s: Seq<char>, c: char, k: int)
    requires
        0 <= k < s.len(),
        s[k] == c,
        forall|j: int| 0 <= j < k ==> s[j] != c,
    ensures
        first_index(s, c) == k,
{
    assert(!char_free(s, c));
    assert(char_free(s.take(k), c)) by {
        assert forall|j: int| 0 <= j < k implies s.take(k)[j] != c by {
            assert(s.take(k)[j] == s[j]);
        }
    }
    let j = first_index(s, c);
    if k < j {
        assert(s.take(j)[k] == s[k]);
    }
}

/// A line `pub fn n(...` adds the item `fn n` after the items of the lines
/// before it, whatever those are (the same item among them included).
pub proof fn law_fn_line_item(ls: Seq<Seq<char>>, n: Seq<char>, x: Seq<char>)
    requires
        forall|j: int| 0 <= j < n.len() ==> n[j] != '(',
    ensures
        items_of(ls.push("pub fn "@ + n + "("@ + x)) == items_of(ls).push("fn "@ + n),
{
    reveal_strlit("pub fn ");
    reveal_strlit("(");
    let l = "pub fn "@ + n + "("@ + x;
    assert(l.take(7) =~= "pub fn "@);
    let rest = l.skip(7);
    assert(rest =~= n + "("@ + x);
    assert(rest[n.len() as int] == '(');
    assert forall|j: int| 0 <= j < n.len() implies rest[j] != '(' by {
        assert(rest[j] == n[j]);
    }
    lemma_first_index(rest, '(', n.len() as int);
    assert(before_char(rest, '(') =~= n);
    assert(classify(l) == RustLine::Item("fn "@ + n));
    assert(ls.push(l).drop_last() =~= ls);
}

// ---------------------------------------------------------------------------
// The dependency role on a compact crate page

/// `s` ends with `t`.
pub open spec fn ends_with(s: Seq<char>, t: Seq<char>) -> bool {
    t.len() <= s.len() && s.skip(s.len() - t.len()) == t
}

proof fn lemma_ends_with(acc: Seq<char>, t: Seq<char>)
    ensures
        ends_with(acc + t, t),
{
    assert((acc + t).skip(acc.len() as int) =~= t);
}

proof fn lemma_role_ends(acc: Seq<char>, a: nat, b: nat)
    ensures
        a > 0 && b > 0 ==> ends_with(
            graph_role(acc, a, b),
            "Intermediate node \u{2014} depends on "@ + decimal(a) + " crates, depended upon by "@
                + decimal(b) + " crates.\n"@,
        ),
        a > 0 && b == 0 ==> ends_with(
            graph_role(acc, a, b),
            "Leaf node \u{2014} depends on "@ + decimal(a)
                + " workspace crates, nothing depends on it.\n"@,
        ),
        a == 0 && b > 0 ==> ends_with(
            graph_role(acc, a, b),
            "Foundation node \u{2014} depended upon by "@ + decimal(b)
                + " crates, no workspace dependencies.\n"@,
        ),
        a == 0 && b == 0 ==> ends_with(
            graph_role(acc, a, b),
            "Standalone crate \u{2014} no workspace dependencies or dependents.\n"@,
        ),
{
    if a > 0 && b > 0 {
        let t = "Intermediate node \u{2014} depends on "@ + decimal(a) + " crates, depended upon by "@
            + decimal(b) + " crates.\n"@;
        assert(graph_role(acc, a, b) =~= acc + t);
        lemma_ends_with(acc, t);
    } else if a > 0 {
        let t = "Leaf node \u{2014} depends on "@ + decimal(a)
            + " workspace crates, nothing depends on it.\n"@;
        assert(graph_role(acc, a, b) =~= acc + t);
        lemma_ends_with(acc, t);
    } else if b > 0 {
        let t = "Foundation node \u{2014} depended upon by "@ + decimal(b)
            + " crates, no workspace dependencies.\n"@;
        assert(graph_role(acc, a, b) =~= acc + t);
        lemma_ends_with(acc, t);
    } else {
        lemma_ends_with(acc, "Standalone crate \u{2014} no workspace dependencies or dependents.\n"@);
    }
}

/// A compact crate page ends with the crate's dependency role, whose first
/// number counts the workspace crates it depends on (its list in the
/// dependency map) and whose second counts the crates that depend on it:
/// an intermediate node when both are positive, a leaf when only the first
/// is, a foundation when only the second is, standalone when neither is.
pub proof fn law_page_role(
    name: Seq<char>,
    path: Seq<char>,
    cargo_toml: Option<Seq<char>>,
    has_src_main: bool,
    has_src_lib: bool,
    has_root_lib: bool,
    modules: Seq<ModuleView>,
    map: Seq<(Seq<char>, Seq<Seq<char>>)>,
)
    ensures
        ({
            let page = crate_page(
                name,
                path,
                cargo_toml,
                has_src_main,
                has_src_lib,
                has_root_lib,
                modules,
                map,
            );
            let a = map_get(map, underscored(name)).len();
            let b = dependents_in(map, underscored(name)).len();
            &&& a > 0 && b > 0 ==> ends_with(
                page,
                "Intermediate node \u{2014} depends on "@ + decimal(a)
                    + " crates, depended upon by "@ + decimal(b) + " crates.\n"@,
            )
            &&& a > 0 && b == 0 ==> ends_with(
                page,
                "Leaf node \u{2014} depends on "@ + decimal(a)
                    + " workspace crates, nothing depends on it.\n"@,
            )
            &&& a == 0 && b > 0 ==> ends_with(
                page,
                "Foundation node \u{2014} depended upon by "@ + decimal(b)
                    + " crates, no workspace dependencies.\n"@,
            )
            &&& a == 0 && b == 0 ==> ends_with(
                page,
                "Standalone crate \u{2014} no workspace dependencies or dependents.\n"@,
            )
        }),
{
    let nn = underscored(name);
    let fields = manifest_fields(cargo_toml);
    let ws = map_get(map, nn);
    let dependents = dependents_in(map, nn);
    let a = crate_yaml(
        Seq::empty(),
        name,
        dir_name_text(path),
        fields.0,
        fields.1,
        crate_type_of(has_src_main, has_src_lib, has_root_lib),
        ws,
        dependents,
    );
    let b = crate_flowchart(a, name, nn, modules, ws, dependents);
    let c = crate_sequence(b, name, ws, dependents);
    let x = c + "## Summary and Key Insights\n\n### Purpose\n"@ + fields.1 + "\n\n"@
        + "### Key Components\n"@;
    let y = if modules.len() == 0 {
        x + "- No module structure detected\n"@
    } else {
        module_summary(x, modules)
    };
    lemma_role_ends(y + "\n### Dependency Role\n"@, ws.len(), dependents.len());
}

} // verus!
