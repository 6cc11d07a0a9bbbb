//! The compact documentation generator: crate pages that count the public
//! items of each source file and directory, a shorter architecture page and
//! README, and a sequence diagram chosen from the crate's name.
use crate::markdown::{
    append_edge_lines, edge_lines, member_names, member_paths, names_of_members, write_member_paths,
};
use crate::text::{
    before_piece, chars_before_piece, find_char, first_index, lines,
    slice_chars, split_lines,
    append2, append3, append4, append5, append_decimal, append_item_lines, append_joined,
    append_numbered_lines, append_pair_lines, chars_of, contains_seq, copy_strings, dashed,
    dashed_name, decimal, has_piece, has_prefix, holds_text, is_text_less, item_lines, join,
    numbered_lines, pair_lines, same_text, skip_chars, starts_with, string_of, text_less, trim,
    trim_chars, trim_set, trim_start_chars, trim_start_set, trim_ws, trimmed_lines,
    trimmed_lines_of, underscored, views, CharSet, Form,
};
use crate::workspace::{
    add_absent, dependents_in, dir_name_of, dir_name_text, map_get, normalize_crate_name,
    participants, relative_display, relative_path_text, DependencyMap, WorkspaceMember,
};
use vstd::prelude::*;
use vstd::string::StringExecFns;

verus! {

/// A module entry of a crate page: a top-level source file or a directory of
/// the source tree, with the number of public items it declares.
pub struct ModuleInfo {
    /// Path below the source root (`builder`, `http_api/`).
    pub path: String,
    /// The name shown on the page (a directory ends in `/`).
    pub display: String,
    /// The number of public items counted in it.
    pub item_count: usize,
    /// For a directory: the stems of its `.rs` files.
    pub children: Vec<String>,
    /// Whether the entry is a directory.
    pub is_dir: bool,
}

/// The text of a [`ModuleInfo`].
pub struct ModuleView {
    pub path: Seq<char>,
    pub display: Seq<char>,
    pub item_count: nat,
    pub children: Seq<Seq<char>>,
    pub is_dir: bool,
}

impl View for ModuleInfo {
    type V = ModuleView;

    open spec fn view(&self) -> ModuleView {
        ModuleView {
            path: self.path@,
            display: self.display@,
            item_count: self.item_count as nat,
            children: views(self.children@),
            is_dir: self.is_dir,
        }
    }
}

pub open spec fn module_views(ms: Seq<ModuleInfo>) -> Seq<ModuleView> {
    ms.map_values(|m: ModuleInfo| m@)
}

/// One entry of a directory of the source tree.
pub struct DirEntry {
    /// The file name.
    pub name: String,
    /// The file stem (the name without its extension).
    pub stem: String,
    /// Whether the entry is a directory.
    pub is_dir: bool,
    /// Whether the name has the extension `rs`.
    pub is_rs: bool,
    /// The public items counted in the file's text (0 when it cannot be read).
    pub file_items: usize,
    /// For a directory: its own entries (empty when it cannot be read).
    pub entries: Vec<DirEntry>,
}

/// Everything the crate page shows about one crate.
pub struct CrateInfo {
    pub name: String,
    pub version: String,
    pub description: String,
    pub crate_type: String,
    pub dependencies: Vec<String>,
    pub dependents: Vec<String>,
    pub modules: Vec<ModuleInfo>,
}

// ---------------------------------------------------------------------------
// Ordering the entries of a directory by name

/// `order` with position `i` placed before the first position whose name
/// comes after the name of `i`.
pub open spec fn insert_by_name(order: Seq<int>, i: int, names: Seq<Seq<char>>) -> Seq<int>
    decreases order.len(),
{
    if order.len() == 0 {
        seq![i]
    } else if text_less(names[i], names[order[0]]) {
        seq![i] + order
    } else {
        seq![order[0]] + insert_by_name(order.drop_first(), i, names)
    }
}

/// The positions `0..n` of `names`, placed one after another by name.
pub open spec fn name_order(names: Seq<Seq<char>>, n: nat) -> Seq<int>
    decreases n,
{
    if n == 0 {
        Seq::empty()
    } else {
        insert_by_name(name_order(names, (n - 1) as nat), n - 1, names)
    }
}

pub open spec fn entry_names(es: Seq<DirEntry>) -> Seq<Seq<char>> {
    es.map_values(|e: DirEntry| e.name@)
}

/// The entries in ascending order of their names, as sorting the paths of
/// one directory orders them.
pub open spec fn sorted_entries(es: Seq<DirEntry>) -> Seq<DirEntry> {
    name_order(entry_names(es), es.len()).map_values(|i: int| es[i])
}

proof fn lemma_insert_at(order: Seq<int>, i: int, names: Seq<Seq<char>>, k: int)
    requires
        0 <= k <= order.len(),
        forall|j: int| 0 <= j < k ==> !text_less(names[i], names[#[trigger] order[j]]),
        k == order.len() || text_less(names[i], names[order[k]]),
    ensures
        insert_by_name(order, i, names) == order.insert(k, i),
    decreases order.len(),
{
    if order.len() == 0 {
        assert(seq![i] =~= order.insert(k, i));
    } else if k == 0 {
        assert(seq![i] + order =~= order.insert(0, i));
    } else {
        assert(!text_less(names[i], names[order[0]]));
        let rest = order.drop_first();
        assert forall|j: int| 0 <= j < k - 1 implies !text_less(
            names[i],
            names[#[trigger] rest[j]],
        ) by {
            assert(rest[j] == order[j + 1]);
        }
        lemma_insert_at(rest, i, names, k - 1);
        assert(seq![order[0]] + rest.insert(k - 1, i) =~= order.insert(k, i));
    }
}

/// The positions of `names` in ascending order of the names.
fn order_by_name(names: &Vec<Vec<char>>) -> (r: Vec<usize>)
    ensures
        r@.map_values(|x: usize| x as int) == name_order(
            names@.map_values(|v: Vec<char>| v@),
            names@.len(),
        ),
        forall|j: int| 0 <= j < r@.len() ==> #[trigger] r@[j] < names@.len(),
{
    let ghost nv = names@.map_values(|v: Vec<char>| v@);
    let mut order: Vec<usize> = Vec::new();
    let mut i: usize = 0;
    while i < names.len()
        invariant
            i <= names.len(),
            nv == names@.map_values(|v: Vec<char>| v@),
            order@.map_values(|x: usize| x as int) == name_order(nv, i as nat),
            forall|j: int| 0 <= j < order@.len() ==> #[trigger] order@[j] < i,
        decreases names.len() - i,
    {
        let ghost ov = order@.map_values(|x: usize| x as int);
        let mut k: usize = 0;
        while k < order.len() && !is_text_less(&names[i], &names[order[k]])
            invariant
                k <= order.len(),
                i < names.len(),
                nv == names@.map_values(|v: Vec<char>| v@),
                ov == order@.map_values(|x: usize| x as int),
                forall|j: int| 0 <= j < order@.len() ==> #[trigger] order@[j] < i,
                forall|j: int| 0 <= j < k ==> !text_less(nv[i as int], nv[#[trigger] ov[j]]),
            decreases order.len() - k,
        {
            assert(ov[k as int] == order@[k as int] as int);
            k = k + 1;
        }
        proof {
            if k < order.len() {
                assert(ov[k as int] == order@[k as int] as int);
            }
            lemma_insert_at(ov, i as int, nv, k as int);
        }
        order.insert(k, i);
        assert(order@.map_values(|x: usize| x as int) =~= ov.insert(k as int, i as int));
        i = i + 1;
    }
    order
}

proof fn lemma_sorted_by_order(es: Seq<DirEntry>, nv: Seq<Seq<char>>, order: Seq<usize>)
    requires
        nv == entry_names(es),
        order.map_values(|x: usize| x as int) == name_order(nv, nv.len()),
        forall|j: int| 0 <= j < order.len() ==> #[trigger] order[j] < nv.len(),
    ensures
        sorted_entries(es) == order.map_values(|x: usize| es[x as int]),
        forall|j: int| 0 <= j < order.len() ==> #[trigger] order[j] < es.len(),
{
    assert(nv.len() == es.len());
    let a = sorted_entries(es);
    let b = order.map_values(|x: usize| es[x as int]);
    assert forall|j: int| 0 <= j < a.len() implies a[j] == b[j] by {
        assert(order.map_values(|x: usize| x as int)[j] == order[j] as int);
    }
    assert(a =~= b);
}

/// The names of the entries, as characters.
fn entry_name_chars(entries: &Vec<DirEntry>) -> (r: Vec<Vec<char>>)
    ensures
        r@.map_values(|v: Vec<char>| v@) == entry_names(entries@),
{
    let mut r: Vec<Vec<char>> = Vec::new();
    let mut i: usize = 0;
    while i < entries.len()
        invariant
            i <= entries.len(),
            r@.len() == i,
            forall|j: int| 0 <= j < i ==> #[trigger] r@[j]@ == entries@[j].name@,
        decreases entries.len() - i,
    {
        r.push(chars_of(entries[i].name.as_str()));
        i = i + 1;
    }
    assert(r@.map_values(|v: Vec<char>| v@) =~= entry_names(entries@));
    r
}

// ---------------------------------------------------------------------------
// Counting public items and walking the source tree

/// The line beginnings that mark a public item.
pub open spec fn public_prefixes() -> Seq<Seq<char>> {
    seq![
        "pub fn "@,
        "pub async fn "@,
        "pub(crate) fn "@,
        "pub(super) fn "@,
        "pub(crate) async fn "@,
        "pub struct "@,
        "pub(crate) struct "@,
        "pub enum "@,
        "pub(crate) enum "@,
        "pub trait "@,
        "pub(crate) trait "@,
        "pub type "@,
        "pub(crate) type "@,
        "pub const "@,
        "pub(crate) const "@,
        "pub static "@,
        "pub(crate) static "@,
    ]
}

/// A trimmed line declares a public item: it starts with one of the public
/// prefixes, whatever follows (a trailing comment included).
pub open spec fn is_public_item_line(t: Seq<char>) -> bool {
    exists|k: int| 0 <= k < public_prefixes().len() && starts_with(t, #[trigger] public_prefixes()[k])
}

/// How many of the lines declare a public item.
pub open spec fn public_item_count(ls: Seq<Seq<char>>) -> nat
    decreases ls.len(),
{
    if ls.len() == 0 {
        0
    } else {
        public_item_count(ls.drop_last()) + if is_public_item_line(ls.last()) {
            1nat
        } else {
            0nat
        }
    }
}

fn public_prefix_chars() -> (r: Vec<Vec<char>>)
    ensures
        r@.map_values(|v: Vec<char>| v@) == public_prefixes(),
{
    let mut r: Vec<Vec<char>> = Vec::new();
    r.push(chars_of("pub fn "));
    r.push(chars_of("pub async fn "));
    r.push(chars_of("pub(crate) fn "));
    r.push(chars_of("pub(super) fn "));
    r.push(chars_of("pub(crate) async fn "));
    r.push(chars_of("pub struct "));
    r.push(chars_of("pub(crate) struct "));
    r.push(chars_of("pub enum "));
    r.push(chars_of("pub(crate) enum "));
    r.push(chars_of("pub trait "));
    r.push(chars_of("pub(crate) trait "));
    r.push(chars_of("pub type "));
    r.push(chars_of("pub(crate) type "));
    r.push(chars_of("pub const "));
    r.push(chars_of("pub(crate) const "));
    r.push(chars_of("pub static "));
    r.push(chars_of("pub(crate) static "));
    assert(r@.map_values(|v: Vec<char>| v@) =~= public_prefixes());
    r
}

/// Whether a trimmed line declares a public item.
fn declares_public_item(t: &[char], prefixes: &Vec<Vec<char>>) -> (r: bool)
    requires
        prefixes@.map_values(|v: Vec<char>| v@) == public_prefixes(),
    ensures
        r == is_public_item_line(t@),
{
    let mut found = false;
    let mut k: usize = 0;
    while k < prefixes.len()
        invariant
            k <= prefixes.len(),
            prefixes@.map_values(|v: Vec<char>| v@) == public_prefixes(),
            found == exists|j: int| 0 <= j < k && starts_with(t@, #[trigger] public_prefixes()[j]),
        decreases prefixes.len() - k,
    {
        assert(prefixes@[k as int]@ == public_prefixes()[k as int]);
        if has_prefix(t, &prefixes[k]) {
            found = true;
        }
        k = k + 1;
    }
    found
}

/// The number of public items a Rust source text declares: its trimmed
/// lines that start with a public item prefix.
pub fn count_public_items(content: &str) -> (r: usize)
    ensures
        r == public_item_count(trimmed_lines(content@)),
{
    let ls = trimmed_lines_of(content);
    let ghost lv = trimmed_lines(content@);
    let prefixes = public_prefix_chars();
    let mut count: usize = 0;
    let mut i: usize = 0;
    while i < ls.len()
        invariant
            i <= ls.len(),
            ls@.map_values(|l: Vec<char>| l@) == lv,
            prefixes@.map_values(|v: Vec<char>| v@) == public_prefixes(),
            count == public_item_count(lv.take(i as int)),
            count <= i,
        decreases ls.len() - i,
    {
        assert(lv.take(i + 1).drop_last() =~= lv.take(i as int));
        assert(ls@[i as int]@ == lv[i as int]);
        if declares_public_item(&ls[i], &prefixes) {
            count = count + 1;
        }
        i = i + 1;
    }
    assert(lv.take(i as int) =~= lv);
    count
}

/// The item count of a directory with entries `es`, over the whole tree
/// below it: a `.rs` file adds its count, a subdirectory the item count of
/// its own entries, anything else nothing.
pub open spec fn total_items(es: Seq<DirEntry>) -> nat
    decreases es,
    via total_items_decreases
{
    if es.len() == 0 {
        0
    } else {
        let e = es.last();
        total_items(es.drop_last()) + if e.is_dir {
            total_items(e.entries@)
        } else if e.is_rs {
            e.file_items as nat
        } else {
            0
        }
    }
}

#[via_fn]
proof fn total_items_decreases(es: Seq<DirEntry>) {
    if es.len() > 0 {
        let n = es.len() - 1;
        assert(decreases_to!(es => es.subrange(0, n)));
        assert(es.drop_last() == es.subrange(0, n));
        assert(decreases_to!(es => es[n]));
        assert(decreases_to!(es[n] => es[n].entries));
        assert(decreases_to!(es[n].entries => es[n].entries@));
        assert(es.last() == es[n]);
    }
}

/// How a directory lists an entry: a `.rs` file other than `mod.rs` as its
/// stem, anything else (a subdirectory too) not at all.
pub open spec fn child_label(e: DirEntry) -> Option<Seq<char>> {
    if !e.is_dir && e.is_rs && e.stem@ != "mod"@ {
        Some(e.stem@)
    } else {
        None
    }
}

/// The labels of the entries, in order.
pub open spec fn child_labels(es: Seq<DirEntry>) -> Seq<Seq<char>>
    decreases es.len(),
{
    if es.len() == 0 {
        Seq::empty()
    } else {
        let r = child_labels(es.drop_last());
        match child_label(es.last()) {
            Some(l) => r.push(l),
            None => r,
        }
    }
}

proof fn lemma_total_prefix(es: Seq<DirEntry>, i: int)
    requires
        0 <= i <= es.len(),
    ensures
        total_items(es.take(i)) <= total_items(es),
    decreases es.len(),
{
    if i < es.len() {
        assert(es.drop_last().take(i) =~= es.take(i));
        lemma_total_prefix(es.drop_last(), i);
    } else {
        assert(es.take(i) =~= es);
    }
}

/// A subdirectory's item count is part of its parent's.
proof fn lemma_total_of_subdirectory(es: Seq<DirEntry>, i: int)
    requires
        0 <= i < es.len(),
        es[i].is_dir,
    ensures
        total_items(es[i].entries@) <= total_items(es.take(i + 1)),
        total_items(es.take(i + 1)) <= total_items(es),
{
    assert(es.take(i + 1).last() == es[i]);
    lemma_total_prefix(es, i + 1);
}

/// The item count of a directory and what it lists: the public items of its
/// `.rs` files and, walked in turn, of its subdirectories added up, and the
/// stems of its `.rs` files other than `mod`, in ascending order of the file
/// names.
pub fn walk_dir_items(entries: &Vec<DirEntry>) -> (r: (usize, Vec<String>))
    requires
        total_items(entries@) <= usize::MAX,
    ensures
        r.0 == total_items(entries@),
        views(r.1@) == child_labels(sorted_entries(entries@)),
    decreases entries@,
{
    let mut total: usize = 0;
    let mut i: usize = 0;
    while i < entries.len()
        invariant
            i <= entries.len(),
            total_items(entries@) <= usize::MAX,
            total == total_items(entries@.take(i as int)),
        decreases entries.len() - i,
    {
        assert(entries@.take(i + 1).drop_last() =~= entries@.take(i as int));
        proof {
            lemma_total_prefix(entries@, i + 1);
        }
        let e = &entries[i];
        assert(entries@.take(i + 1).last() == *e);
        if e.is_dir {
            proof {
                lemma_total_of_subdirectory(entries@, i as int);
                assert(decreases_to!(entries@ => entries@[i as int]));
                assert(decreases_to!(entries@[i as int] => entries@[i as int].entries));
                assert(decreases_to!(entries@[i as int].entries => entries@[i as int].entries@));
            }
            let (sub, _) = walk_dir_items(&e.entries);
            total = total + sub;
        } else if e.is_rs {
            total = total + e.file_items;
        }
        i = i + 1;
    }
    assert(entries@.take(i as int) =~= entries@);
    let names = entry_name_chars(entries);
    let order = order_by_name(&names);
    let ghost sorted = sorted_entries(entries@);
    proof {
        lemma_sorted_by_order(entries@, names@.map_values(|v: Vec<char>| v@), order@);
    }
    let s_mod = String::from_str("mod");
    let mut children: Vec<String> = Vec::new();
    let mut k: usize = 0;
    while k < order.len()
        invariant
            k <= order.len(),
            s_mod@ == "mod"@,
            forall|j: int| 0 <= j < order@.len() ==> #[trigger] order@[j] < entries@.len(),
            sorted == order@.map_values(|x: usize| entries@[x as int]),
            views(children@) == child_labels(sorted.take(k as int)),
        decreases order.len() - k,
    {
        assert(sorted.take(k + 1).drop_last() =~= sorted.take(k as int));
        let e = &entries[order[k]];
        assert(sorted[k as int] == *e);
        let ghost before = views(children@);
        if !e.is_dir && e.is_rs && !same_text(&e.stem, &s_mod) {
            children.push(e.stem.clone());
            assert(views(children@) =~= before.push(e.stem@));
        }
        k = k + 1;
    }
    assert(sorted.take(k as int) =~= sorted);
    (total, children)
}

/// The module entry of a top-level source file.
pub open spec fn file_module(e: DirEntry) -> ModuleView {
    ModuleView {
        path: e.stem@,
        display: e.stem@,
        item_count: e.file_items as nat,
        children: Seq::empty(),
        is_dir: false,
    }
}

/// The module entry of a top-level directory: its item count and listing
/// as the directory walk gives them.
pub open spec fn dir_module(e: DirEntry) -> ModuleView {
    ModuleView {
        path: e.name@ + "/"@,
        display: e.name@ + "/"@,
        item_count: total_items(e.entries@),
        children: child_labels(sorted_entries(e.entries@)),
        is_dir: true,
    }
}

/// The item count of every subdirectory fits in a `usize`.
pub open spec fn subdirectory_totals_fit(es: Seq<DirEntry>) -> bool {
    forall|i: int| 0 <= i < es.len() && #[trigger] es[i].is_dir ==> total_items(es[i].entries@) <= usize::MAX
}

/// The `.rs` entries other than `mod`, as module entries, in order.
pub open spec fn file_modules(es: Seq<DirEntry>) -> Seq<ModuleView>
    decreases es.len(),
{
    if es.len() == 0 {
        Seq::empty()
    } else {
        let r = file_modules(es.drop_last());
        if es.last().is_rs && es.last().stem@ != "mod"@ {
            r.push(file_module(es.last()))
        } else {
            r
        }
    }
}

/// The directory entries, as module entries, in order.
pub open spec fn dir_modules(es: Seq<DirEntry>) -> Seq<ModuleView>
    decreases es.len(),
{
    if es.len() == 0 {
        Seq::empty()
    } else {
        let r = dir_modules(es.drop_last());
        if es.last().is_dir {
            r.push(dir_module(es.last()))
        } else {
            r
        }
    }
}

/// The modules of a crate from the entries of its source root: first its
/// `.rs` files other than `mod.rs`, then its directories, each with the item
/// count and listing that walking it gives, each group in ascending order of
/// the file names.
pub fn parse_crate_modules(entries: &Vec<DirEntry>) -> (r: Vec<ModuleInfo>)
    requires
        subdirectory_totals_fit(entries@),
    ensures
        module_views(r@) == file_modules(sorted_entries(entries@)) + dir_modules(
            sorted_entries(entries@),
        ),
{
    let names = entry_name_chars(entries);
    let order = order_by_name(&names);
    let ghost sorted = sorted_entries(entries@);
    proof {
        lemma_sorted_by_order(entries@, names@.map_values(|v: Vec<char>| v@), order@);
    }
    let s_mod = String::from_str("mod");
    let mut modules: Vec<ModuleInfo> = Vec::new();
    let mut k: usize = 0;
    while k < order.len()
        invariant
            k <= order.len(),
            s_mod@ == "mod"@,
            forall|j: int| 0 <= j < order@.len() ==> #[trigger] order@[j] < entries@.len(),
            sorted == order@.map_values(|x: usize| entries@[x as int]),
            module_views(modules@) == file_modules(sorted.take(k as int)),
        decreases order.len() - k,
    {
        assert(sorted.take(k + 1).drop_last() =~= sorted.take(k as int));
        let e = &entries[order[k]];
        assert(sorted[k as int] == *e);
        let ghost before = module_views(modules@);
        if e.is_rs && !same_text(&e.stem, &s_mod) {
            let m = ModuleInfo {
                path: e.stem.clone(),
                display: e.stem.clone(),
                item_count: e.file_items,
                children: Vec::new(),
                is_dir: false,
            };
            assert(views(m.children@) =~= Seq::<Seq<char>>::empty());
            modules.push(m);
            assert(module_views(modules@) =~= before.push(file_module(*e)));
        }
        k = k + 1;
    }
    assert(sorted.take(k as int) =~= sorted);
    let ghost head = module_views(modules@);
    let mut k: usize = 0;
    while k < order.len()
        invariant
            k <= order.len(),
            forall|j: int| 0 <= j < order@.len() ==> #[trigger] order@[j] < entries@.len(),
            sorted == order@.map_values(|x: usize| entries@[x as int]),
            module_views(modules@) == head + dir_modules(sorted.take(k as int)),
            subdirectory_totals_fit(entries@),
        decreases order.len() - k,
    {
        assert(sorted.take(k + 1).drop_last() =~= sorted.take(k as int));
        let e = &entries[order[k]];
        assert(sorted[k as int] == *e);
        let ghost before = module_views(modules@);
        if e.is_dir {
            let mut label = String::from_str(e.name.as_str());
            label.append("/");
            assert(entries@[order@[k as int] as int].is_dir);
            let (item_count, children) = walk_dir_items(&e.entries);
            let m = ModuleInfo { path: label.clone(), display: label, item_count, children, is_dir: true };
            modules.push(m);
            assert(module_views(modules@) =~= before.push(dir_module(*e)));
        }
        k = k + 1;
    }
    assert(sorted.take(k as int) =~= sorted);
    modules
}

/// The crate type of a crate directory from which of `src/main.rs`,
/// `src/lib.rs` and `lib.rs` exist.
pub open spec fn crate_type_of(has_src_main: bool, has_src_lib: bool, has_root_lib: bool) -> Seq<
    char,
> {
    if has_src_main {
        "binary"@
    } else if has_src_lib || has_root_lib {
        "library"@
    } else {
        "unknown"@
    }
}

/// `binary` when `src/main.rs` exists, else `library` when `src/lib.rs` or
/// `lib.rs` exists, else `unknown`.
pub fn detect_crate_type(has_src_main: bool, has_src_lib: bool, has_root_lib: bool) -> (r: String)
    ensures
        r@ == crate_type_of(has_src_main, has_src_lib, has_root_lib),
{
    if has_src_main {
        String::from_str("binary")
    } else if has_src_lib || has_root_lib {
        String::from_str("library")
    } else {
        String::from_str("unknown")
    }
}

// ---------------------------------------------------------------------------
// Reading the manifest

/// The delimiter of a multi-line basic string.
pub open spec fn triple_quote() -> Seq<char> {
    seq!['"', '"', '"']
}

/// What a trimmed line holds after `key`, as the scan reads a value: the
/// line starts with `key`; the spaces and `=` signs that follow it are
/// skipped and the rest is trimmed.
pub open spec fn key_rest(t: Seq<char>, key: Seq<char>) -> Option<Seq<char>> {
    if starts_with(t, key) {
        Some(trim(trim_start_set(t.skip(key.len() as int), CharSet::SpaceOrEquals)))
    } else {
        None
    }
}

/// A value that inherits the field from the workspace: the dotted key
/// `.workspace` (as in `description.workspace = true`) or an inline table
/// that names `workspace`.
pub open spec fn workspace_marker(r: Seq<char>) -> bool {
    ||| starts_with(r, ".workspace"@)
    ||| (r.len() > 0 && r[0] == '{' && contains_seq(r, "workspace"@))
}

/// The position of the `"` that closes a basic string, scanning from `i`: a
/// backslash escapes the character after it; the length when none closes it.
pub open spec fn basic_close(s: Seq<char>, i: int) -> int
    decreases s.len() - i,
{
    if i < 0 || i >= s.len() {
        s.len() as int
    } else if s[i] == '"' {
        i
    } else if s[i] == '\\' && i + 1 < s.len() {
        basic_close(s, i + 2)
    } else {
        basic_close(s, i + 1)
    }
}

/// Where the string that opens a value closes: a `"` string at its first
/// unescaped `"` after the opening one, a `'` string at the next `'`;
/// nothing when the value opens no string or the string is not closed.
pub open spec fn string_close(r: Seq<char>) -> Option<int> {
    if r.len() > 0 && r[0] == '"' {
        let e = basic_close(r, 1);
        if e < r.len() {
            Some(e)
        } else {
            None
        }
    } else if r.len() > 0 && r[0] == '\'' {
        let e = 1 + first_index(r.skip(1), '\'');
        if e < r.len() {
            Some(e)
        } else {
            None
        }
    } else {
        None
    }
}

/// A value without its trailing comment: cut after the closing quote of its
/// string when what follows is a `#` comment; otherwise the value as it is.
pub open spec fn without_comment(r: Seq<char>) -> Seq<char> {
    match string_close(r) {
        Some(e) => if starts_with(trim_start_set(r.skip(e + 1), CharSet::WhiteSpace), "#"@) {
            r.take(e + 1)
        } else {
            r
        },
        None => r,
    }
}

/// The text of a one-line description value: the trailing comment left out,
/// then the `"` characters and after them the `'` characters stripped from
/// both ends.
pub open spec fn one_line_text(r: Seq<char>) -> Seq<char> {
    trim_set(trim_set(without_comment(r), CharSet::Only('"')), CharSet::Only('\''))
}

/// A description text that is taken: not empty, and not `workspace` or `true`.
pub open spec fn accepted_description(d: Seq<char>) -> bool {
    d.len() > 0 && d != "workspace"@ && d != "true"@
}

/// A new description replaces the old one only when it is taken.
pub open spec fn keep_if_set(d: Seq<char>, old: Seq<char>) -> Seq<char> {
    if accepted_description(d) {
        d
    } else {
        old
    }
}

/// The state of the manifest scan.
pub struct ManifestState {
    /// Inside the `[package]` table.
    pub in_package: bool,
    pub version: Seq<char>,
    pub description: Seq<char>,
    /// The lines read so far of a multi-line description that is still open.
    pub pending: Option<Seq<Seq<char>>>,
}

/// The version after a `[package]` line: a value after `version` that
/// starts with `"`, with the `"` characters at both of its ends stripped;
/// other values (`version.workspace = true` among them) leave it as it was.
pub open spec fn line_version(version: Seq<char>, t: Seq<char>) -> Seq<char> {
    match key_rest(t, "version"@) {
        Some(r) => if r.len() > 0 && r[0] == '"' {
            trim_set(r, CharSet::Only('"'))
        } else {
            version
        },
        None => version,
    }
}

/// The description after a `[package]` line, and the opened multi-line
/// string if the line opens one: the value after `description`, or a `"""`
/// string, which may go on over the following lines (an empty rest of the
/// opening line is dropped). A workspace marker leaves it as it was.
pub open spec fn line_description(description: Seq<char>, t: Seq<char>) -> (
    Seq<char>,
    Option<Seq<Seq<char>>>,
) {
    match key_rest(t, "description"@) {
        Some(x) => description_value(description, x),
        None => (description, None),
    }
}

/// The description after the value `x` is read for `description`, and the
/// multi-line string it opens.
pub open spec fn description_value(description: Seq<char>, x: Seq<char>) -> (
    Seq<char>,
    Option<Seq<Seq<char>>>,
) {
    if workspace_marker(x) {
        (description, None)
    } else if starts_with(x, triple_quote()) {
        triple_description(description, x.skip(3))
    } else {
        (keep_if_set(one_line_text(x), description), None)
    }
}

/// A `"""` description whose opening line goes on with `rest`: closed on the
/// same line, or opened with `rest` as its first line unless `rest` is empty.
pub open spec fn triple_description(description: Seq<char>, rest: Seq<char>) -> (
    Seq<char>,
    Option<Seq<Seq<char>>>,
) {
    if contains_seq(rest, triple_quote()) {
        (keep_if_set(before_piece(rest, triple_quote()), description), None)
    } else {
        (
            description,
            Some(
                if rest.len() == 0 {
                    Seq::empty()
                } else {
                    seq![rest]
                },
            ),
        )
    }
}

/// A `[package]` line that may set the version or the description.
pub open spec fn key_line(st: ManifestState, t: Seq<char>) -> ManifestState {
    let d = line_description(st.description, t);
    ManifestState {
        in_package: st.in_package,
        version: line_version(st.version, t),
        description: d.0,
        pending: d.1,
    }
}

/// One line of the manifest scan. An open multi-line description takes the
/// line, up to `"""` when it closes there, the lines joined by line breaks.
/// Otherwise the trimmed line `[package]` opens the table, any other line
/// starting with `[` closes it, and inside it a line may set a field.
#[verifier::opaque]
pub open spec fn manifest_step(st: ManifestState, l: Seq<char>) -> ManifestState {
    match st.pending {
        Some(parts) => if contains_seq(l, triple_quote()) {
            ManifestState {
                in_package: st.in_package,
                version: st.version,
                description: keep_if_set(
                    join(parts.push(before_piece(l, triple_quote())), "\n"@),
                    st.description,
                ),
                pending: None,
            }
        } else {
            ManifestState {
                in_package: st.in_package,
                version: st.version,
                description: st.description,
                pending: Some(parts.push(l)),
            }
        },
        None => {
            let t = trim(l);
            if t == "[package]"@ {
                ManifestState {
                    in_package: true,
                    version: st.version,
                    description: st.description,
                    pending: None,
                }
            } else if !st.in_package || (t.len() > 0 && t[0] == '[') {
                ManifestState {
                    in_package: false,
                    version: st.version,
                    description: st.description,
                    pending: None,
                }
            } else {
                key_line(st, t)
            }
        },
    }
}

/// The state after scanning the lines, starting outside `[package]` with
/// version `0.0.0`, no description and no open string.
pub open spec fn manifest_scan(ls: Seq<Seq<char>>) -> ManifestState
    decreases ls.len(),
{
    if ls.len() == 0 {
        ManifestState {
            in_package: false,
            version: "0.0.0"@,
            description: Seq::empty(),
            pending: None,
        }
    } else {
        manifest_step(manifest_scan(ls.drop_last()), ls.last())
    }
}

pub open spec fn chars_opt(o: Option<Vec<char>>) -> Option<Seq<char>> {
    match o {
        Some(v) => Some(v@),
        None => None,
    }
}

pub open spec fn parts_opt(o: Option<Vec<String>>) -> Option<Seq<Seq<char>>> {
    match o {
        Some(v) => Some(views(v@)),
        None => None,
    }
}

/// The literal pieces the manifest scan compares lines against.
struct ManifestKeys {
    package: Vec<char>,
    version: Vec<char>,
    description: Vec<char>,
    triple: Vec<char>,
    dot_workspace: Vec<char>,
    workspace: Vec<char>,
    truth: Vec<char>,
    hash: Vec<char>,
}

impl ManifestKeys {
    spec fn wf(&self) -> bool {
        &&& self.package@ == "[package]"@
        &&& self.version@ == "version"@
        &&& self.description@ == "description"@
        &&& self.triple@ == triple_quote()
        &&& self.dot_workspace@ == ".workspace"@
        &&& self.workspace@ == "workspace"@
        &&& self.truth@ == "true"@
        &&& self.hash@ == "#"@
    }

    fn new() -> (r: Self)
        ensures
            r.wf(),
    {
        let triple = vec!['"', '"', '"'];
        assert(triple@ =~= triple_quote());
        ManifestKeys {
            package: chars_of("[package]"),
            version: chars_of("version"),
            description: chars_of("description"),
            triple,
            dot_workspace: chars_of(".workspace"),
            workspace: chars_of("workspace"),
            truth: chars_of("true"),
            hash: chars_of("#"),
        }
    }
}

/// What a trimmed line holds after `key`.
fn key_rest_of(t: &[char], key: &[char]) -> (r: Option<Vec<char>>)
    ensures
        chars_opt(r) == key_rest(t@, key@),
{
    if !has_prefix(t, key) {
        return None;
    }
    let rest = skip_chars(t, key.len());
    let r = trim_start_chars(&rest, CharSet::SpaceOrEquals);
    Some(trim_ws(&r))
}

/// Whether `a` and `b` hold the same characters.
fn same_chars(a: &[char], b: &[char]) -> (r: bool)
    ensures
        r == (a@ == b@),
{
    if a.len() == b.len() && has_prefix(a, b) {
        assert(a@ =~= a@.take(b@.len() as int));
        true
    } else {
        proof {
            if a@ == b@ {
                assert(a@.take(b@.len() as int) =~= a@);
            }
        }
        false
    }
}

/// Whether the value inherits the field from the workspace.
fn is_workspace_marker(keys: &ManifestKeys, r: &[char]) -> (b: bool)
    requires
        keys.wf(),
    ensures
        b == workspace_marker(r@),
{
    has_prefix(r, &keys.dot_workspace) || (r.len() > 0 && r[0] == '{' && has_piece(
        r,
        &keys.workspace,
    ))
}

/// The position of the `"` that closes a basic string, scanning from `i`.
fn basic_close_of(s: &[char], i: usize) -> (e: usize)
    ensures
        e == basic_close(s@, i as int),
{
    if i >= s.len() {
        return s.len();
    }
    let mut k: usize = i;
    while k < s.len()
        invariant
            k <= s.len(),
            basic_close(s@, i as int) == basic_close(s@, k as int),
        decreases s.len() - k,
    {
        if s[k] == '"' {
            return k;
        }
        if s[k] == '\\' && k + 1 < s.len() {
            k = k + 2;
        } else {
            k = k + 1;
        }
    }
    s.len()
}

/// Where the string that opens a value closes, if it does.
#[verifier::rlimit(40)]
fn string_close_of(r: &[char]) -> (e: Option<usize>)
    ensures
        match e {
            Some(k) => k < r.len() && string_close(r@) == Some(k as int),
            None => string_close(r@) is None,
        },
{
    if r.len() > 0 && r[0] == '"' {
        let e = basic_close_of(r, 1);
        if e < r.len() {
            Some(e)
        } else {
            None
        }
    } else if r.len() > 0 && r[0] == '\'' {
        let rest = skip_chars(r, 1);
        let k = find_char(&rest, '\'');
        if k + 1 < r.len() {
            Some(k + 1)
        } else {
            None
        }
    } else {
        None
    }
}

/// A value without its trailing comment.
#[verifier::rlimit(40)]
fn without_comment_of(keys: &ManifestKeys, r: &[char]) -> (w: Vec<char>)
    requires
        keys.wf(),
    ensures
        w@ == without_comment(r@),
{
    match string_close_of(r) {
        Some(e) => {
            let after = skip_chars(r, e + 1);
            let lead = trim_start_chars(&after, CharSet::WhiteSpace);
            if has_prefix(&lead, &keys.hash) {
                slice_chars(r, 0, e + 1)
            } else {
                slice_chars(r, 0, r.len())
            }
        },
        None => slice_chars(r, 0, r.len()),
    }
}

/// The text of a one-line description value.
fn one_line_text_of(keys: &ManifestKeys, r: &[char]) -> (d: Vec<char>)
    requires
        keys.wf(),
    ensures
        d@ == one_line_text(r@),
{
    let w = without_comment_of(keys, r);
    let a = trim_chars(&w, CharSet::Only('"'));
    trim_chars(&a, CharSet::Only('\''))
}

/// Whether a description text is taken.
fn is_accepted(keys: &ManifestKeys, d: &[char]) -> (b: bool)
    requires
        keys.wf(),
    ensures
        b == accepted_description(d@),
{
    d.len() > 0 && !same_chars(d, &keys.workspace) && !same_chars(d, &keys.truth)
}

/// The description `d` when it is taken, else `old`.
fn keep_if_set_of(keys: &ManifestKeys, d: &[char], old: String) -> (r: String)
    requires
        keys.wf(),
    ensures
        r@ == keep_if_set(d@, old@),
{
    if is_accepted(keys, d) {
        string_of(d)
    } else {
        old
    }
}

/// The pieces joined by line breaks.
fn joined_lines(parts: &Vec<String>) -> (r: String)
    ensures
        r@ == join(views(parts@), "\n"@),
{
    let mut out = String::new();
    append_joined(&mut out, parts, "\n");
    assert(out@ =~= join(views(parts@), "\n"@));
    out
}

/// The version after a `[package]` line.
fn scan_version(keys: &ManifestKeys, t: &Vec<char>, version: String) -> (r: String)
    requires
        keys.wf(),
    ensures
        r@ == line_version(version@, t@),
{
    match key_rest_of(t, &keys.version) {
        Some(x) => if x.len() > 0 && x[0] == '"' {
            string_of(&trim_chars(&x, CharSet::Only('"')))
        } else {
            version
        },
        None => version,
    }
}

/// A `"""` description whose opening line goes on with `rest`.
fn scan_triple(keys: &ManifestKeys, rest: &Vec<char>, description: String) -> (r: (
    String,
    Option<Vec<String>>,
))
    requires
        keys.wf(),
    ensures
        r.0@ == triple_description(description@, rest@).0,
        parts_opt(r.1) == triple_description(description@, rest@).1,
{
    if has_piece(rest, &keys.triple) {
        let d = chars_before_piece(rest, &keys.triple);
        (keep_if_set_of(keys, &d, description), None)
    } else {
        let mut parts: Vec<String> = Vec::new();
        if rest.len() > 0 {
            parts.push(string_of(rest));
        }
        proof {
            if rest@.len() == 0 {
                assert(views(parts@) =~= Seq::<Seq<char>>::empty());
            } else {
                assert(views(parts@) =~= seq![rest@]);
            }
        }
        (description, Some(parts))
    }
}

/// The description after a `[package]` line, and the multi-line string it opens.
fn scan_description(keys: &ManifestKeys, t: &Vec<char>, description: String) -> (r: (
    String,
    Option<Vec<String>>,
))
    requires
        keys.wf(),
    ensures
        r.0@ == line_description(description@, t@).0,
        parts_opt(r.1) == line_description(description@, t@).1,
{
    match key_rest_of(t, &keys.description) {
        Some(x) => scan_description_value(keys, &x, description),
        None => (description, None),
    }
}

/// The description after the value `x` is read for `description`.
fn scan_description_value(keys: &ManifestKeys, x: &Vec<char>, description: String) -> (r: (
    String,
    Option<Vec<String>>,
))
    requires
        keys.wf(),
    ensures
        r.0@ == description_value(description@, x@).0,
        parts_opt(r.1) == description_value(description@, x@).1,
{
    if is_workspace_marker(keys, x) {
        (description, None)
    } else if has_prefix(x, &keys.triple) {
        let rest = skip_chars(x, 3);
        scan_triple(keys, &rest, description)
    } else {
        let d = one_line_text_of(keys, x);
        (keep_if_set_of(keys, &d, description), None)
    }
}

/// The scan state that the values stand for.
spec fn state_of(
    in_package: bool,
    version: String,
    description: String,
    pending: Option<Vec<String>>,
) -> ManifestState {
    ManifestState {
        in_package,
        version: version@,
        description: description@,
        pending: parts_opt(pending),
    }
}

/// One line of the manifest scan.
fn scan_manifest_line(
    keys: &ManifestKeys,
    l: &Vec<char>,
    in_package: bool,
    version: String,
    description: String,
    pending: Option<Vec<String>>,
) -> (r: (bool, String, String, Option<Vec<String>>))
    requires
        keys.wf(),
    ensures
        state_of(r.0, r.1, r.2, r.3) == manifest_step(
            state_of(in_package, version, description, pending),
            l@,
        ),
{
    reveal(manifest_step);
    match pending {
        Some(parts) => {
            let mut parts = parts;
            if has_piece(l, &keys.triple) {
                let last = chars_before_piece(l, &keys.triple);
                let ghost before = views(parts@);
                parts.push(string_of(&last));
                assert(views(parts@) =~= before.push(last@));
                let d = joined_lines(&parts);
                let dc = chars_of(d.as_str());
                (in_package, version, keep_if_set_of(keys, &dc, description), None)
            } else {
                let ghost before = views(parts@);
                parts.push(string_of(l));
                assert(views(parts@) =~= before.push(l@));
                (in_package, version, description, Some(parts))
            }
        },
        None => {
            let t = trim_ws(l);
            if t.len() == keys.package.len() && has_prefix(&t, &keys.package) {
                assert(t@ =~= t@.take(keys.package@.len() as int));
                return (true, version, description, None);
            }
            proof {
                if t@ == "[package]"@ {
                    assert(t@.take(t@.len() as int) =~= t@);
                }
            }
            if !in_package || (t.len() > 0 && t[0] == '[') {
                return (false, version, description, None);
            }
            let v = scan_version(keys, &t, version);
            let (d, o) = scan_description(keys, &t, description);
            (in_package, v, d, o)
        },
    }
}

/// The version and the description that the `[package]` table of a
/// `Cargo.toml` text declares: `0.0.0` and nothing when it declares none or
/// inherits them from the workspace. The version is a `"` value with its
/// quotes stripped; the description a one-line value with its quotes and any
/// trailing comment stripped (`workspace` and `true` are not taken), or a
/// `"""` string over one or more lines, joined by line breaks.
pub fn parse_cargo_toml(content: &str) -> (r: (String, String))
    ensures
        r.0@ == manifest_scan(lines(content@)).version,
        r.1@ == manifest_scan(lines(content@)).description,
{
    let cs = chars_of(content);
    let ls = split_lines(&cs);
    let ghost lv = lines(content@);
    let keys = ManifestKeys::new();
    let mut version = String::from_str("0.0.0");
    let mut description = String::new();
    let mut in_package = false;
    let mut pending: Option<Vec<String>> = None;
    let mut i: usize = 0;
    while i < ls.len()
        invariant
            i <= ls.len(),
            ls@.map_values(|l: Vec<char>| l@) == lv,
            keys.wf(),
            state_of(in_package, version, description, pending) == manifest_scan(
                lv.take(i as int),
            ),
        decreases ls.len() - i,
    {
        assert(lv.take(i + 1).drop_last() =~= lv.take(i as int));
        assert(ls@[i as int]@ == lv[i as int]);
        assert(manifest_scan(lv.take(i + 1)) == manifest_step(
            manifest_scan(lv.take(i as int)),
            lv[i as int],
        ));
        let (p, v, d, o) = scan_manifest_line(
            &keys,
            &ls[i],
            in_package,
            version,
            description,
            pending,
        );
        in_package = p;
        version = v;
        description = d;
        pending = o;
        i = i + 1;
    }
    assert(lv.take(i as int) =~= lv);
    (version, description)
}

// ---------------------------------------------------------------------------
// The sequence diagram

/// The participants of a crate's sequence diagram: the crate, its workspace
/// dependencies, then its dependents not already present, at most six, all
/// in display form but the crate itself.
pub fn build_participants(info: &CrateInfo) -> (r: Vec<String>)
    ensures
        views(r@) == participants(info.name@, views(info.dependencies@), views(info.dependents@)),
{
    let ghost name = info.name@;
    let ghost deps = views(info.dependencies@);
    let ghost dependents = views(info.dependents@);
    let mut p: Vec<String> = Vec::new();
    p.push(info.name.clone());
    let mut i: usize = 0;
    while i < info.dependencies.len()
        invariant
            i <= info.dependencies.len(),
            deps == views(info.dependencies@),
            views(p@) == seq![name] + deps.take(i as int).map_values(|d: Seq<char>| dashed(d)),
        decreases info.dependencies.len() - i,
    {
        let ghost before = views(p@);
        p.push(dashed_name(info.dependencies[i].as_str()));
        assert(views(p@) =~= before.push(dashed(deps[i as int])));
        assert(deps.take(i + 1).map_values(|d: Seq<char>| dashed(d)) =~= deps.take(
            i as int,
        ).map_values(|d: Seq<char>| dashed(d)).push(dashed(deps[i as int])));
        i = i + 1;
    }
    assert(deps.take(i as int) =~= deps);
    let ghost base = seq![name] + deps.map_values(|d: Seq<char>| dashed(d));
    let mut j: usize = 0;
    while j < info.dependents.len()
        invariant
            j <= info.dependents.len(),
            dependents == views(info.dependents@),
            views(p@) == add_absent(base, dependents.take(j as int)),
        decreases info.dependents.len() - j,
    {
        assert(dependents.take(j + 1).drop_last() =~= dependents.take(j as int));
        let nd = dashed_name(info.dependents[j].as_str());
        if !holds_text(&p, &nd) {
            let ghost before = views(p@);
            p.push(nd);
            assert(views(p@) =~= before.push(nd@));
        }
        j = j + 1;
    }
    assert(dependents.take(j as int) =~= dependents);
    let ghost all = views(p@);
    p.truncate(6);
    assert(views(p@) =~= (if all.len() > 6 {
        all.take(6)
    } else {
        all
    }));
    p
}

/// The display form of the first name, or `n` when there is none.
pub open spec fn first_or(names: Seq<Seq<char>>, n: Seq<char>) -> Seq<char> {
    if names.len() > 0 {
        dashed(names[0])
    } else {
        n
    }
}

fn first_or_name(names: &Vec<String>, n: &str) -> (r: String)
    ensures
        r@ == first_or(views(names@), n@),
{
    if names.len() > 0 {
        dashed_name(names[0].as_str())
    } else {
        String::from_str(n)
    }
}

/// Flow of an agent, beacon or implant crate.
pub open spec fn agent_steps(acc: Seq<char>, n: Seq<char>, has_deps: bool, d: Seq<char>) -> Seq<char> {
    let a = acc + "    Note over "@ + n + ": Initial check-in and key exchange\n"@;
    let b = if has_deps {
        a + "    "@ + n + "->>"@ + d + ": Generate cryptographic keys\n"@ + "    "@ + d + "-->>"@ + n
            + ": Key exchange complete\n"@
    } else {
        a
    };
    b + "\n    Note over "@ + n + ": Encrypted communication\n"@ + "    "@ + n + "->>"@ + d
        + ": Send encrypted beacon/check-in\n"@ + "    "@ + d + "-->>"@ + n
        + ": Return tasks (encrypted)\n"@ + "\n    loop Task execution\n"@ + "        "@ + n + "->>"@
        + n + ": Decrypt and execute task\n"@ + "        "@ + n + "->>"@ + d + ": Submit result\n"@
        + "    end\n"@
}

fn write_agent_steps(out: &mut String, n: &str, has_deps: bool, d: &str)
    ensures
        final(out)@ == agent_steps(old(out)@, n@, has_deps, d@),
{
    append3(out, "    Note over ", n, ": Initial check-in and key exchange\n");
    if has_deps {
        append5(out, "    ", n, "->>", d, ": Generate cryptographic keys\n");
        append5(out, "    ", d, "-->>", n, ": Key exchange complete\n");
    }
    append3(out, "\n    Note over ", n, ": Encrypted communication\n");
    append5(out, "    ", n, "->>", d, ": Send encrypted beacon/check-in\n");
    append5(out, "    ", d, "-->>", n, ": Return tasks (encrypted)\n");
    out.append("\n    loop Task execution\n");
    append5(out, "        ", n, "->>", n, ": Decrypt and execute task\n");
    append5(out, "        ", n, "->>", d, ": Submit result\n");
    out.append("    end\n");
}

/// Flow of a core, server or kernel crate.
pub open spec fn server_steps(
    acc: Seq<char>,
    n: Seq<char>,
    has_deps: bool,
    d: Seq<char>,
    has_dependents: bool,
    t: Seq<char>,
) -> Seq<char> {
    let a = if has_dependents {
        acc + "    Note over "@ + n + ": Request handling\n"@ + "    "@ + t + "->>"@ + n
            + ": API request\n"@ + "    "@ + n + "->>"@ + n + ": Validate + route\n"@
    } else {
        acc
    };
    let b = if has_deps {
        a + "\n    Note over "@ + n + ": Storage operations\n"@ + "    "@ + n + "->>"@ + d
            + ": Query/Persist data\n"@ + "    "@ + d + "-->>"@ + n + ": Data result\n"@
    } else {
        a
    };
    if has_dependents {
        b + "\n    "@ + n + "-->>"@ + t + ": Response\n"@
    } else {
        b
    }
}

fn write_server_steps(out: &mut String, n: &str, has_deps: bool, d: &str, has_dependents: bool, t: &str)
    ensures
        final(out)@ == server_steps(old(out)@, n@, has_deps, d@, has_dependents, t@),
{
    if has_dependents {
        append3(out, "    Note over ", n, ": Request handling\n");
        append5(out, "    ", t, "->>", n, ": API request\n");
        append5(out, "    ", n, "->>", n, ": Validate + route\n");
    }
    if has_deps {
        append3(out, "\n    Note over ", n, ": Storage operations\n");
        append5(out, "    ", n, "->>", d, ": Query/Persist data\n");
        append5(out, "    ", d, "-->>", n, ": Data result\n");
    }
    if has_dependents {
        append5(out, "\n    ", n, "-->>", t, ": Response\n");
    }
}

/// Flow of a storage, database or repository crate.
pub open spec fn storage_steps(acc: Seq<char>, n: Seq<char>, has_deps: bool, d: Seq<char>, t: Seq<char>) -> Seq<
    char,
> {
    let a = acc + "    Note over "@ + n + ": Cache check\n"@ + "    "@ + t + "->>"@ + n
        + ": Query request\n"@ + "\n    alt Cache hit\n"@ + "        "@ + n + "-->>"@ + t
        + ": Return cached\n"@ + "    else Cache miss\n"@;
    let b = if has_deps {
        a + "        "@ + n + "->>"@ + d + ": SQL query\n"@ + "        "@ + d + "-->>"@ + n
            + ": Rows\n"@ + "        "@ + n + "->>"@ + n + ": Update cache\n"@
    } else {
        a
    };
    b + "        "@ + n + "-->>"@ + t + ": Return data\n"@ + "    end\n"@
}

fn write_storage_steps(out: &mut String, n: &str, has_deps: bool, d: &str, t: &str)
    ensures
        final(out)@ == storage_steps(old(out)@, n@, has_deps, d@, t@),
{
    append3(out, "    Note over ", n, ": Cache check\n");
    append5(out, "    ", t, "->>", n, ": Query request\n");
    out.append("\n    alt Cache hit\n");
    append5(out, "        ", n, "-->>", t, ": Return cached\n");
    out.append("    else Cache miss\n");
    if has_deps {
        append5(out, "        ", n, "->>", d, ": SQL query\n");
        append5(out, "        ", d, "-->>", n, ": Rows\n");
        append5(out, "        ", n, "->>", n, ": Update cache\n");
    }
    append5(out, "        ", n, "-->>", t, ": Return data\n");
    out.append("    end\n");
}

/// One requested component of a builder's flow.
pub open spec fn request_lines(acc: Seq<char>, n: Seq<char>, d: Seq<char>) -> Seq<char> {
    acc + "    "@ + n + "->>"@ + d + ": Request component\n"@ + "    "@ + d + "-->>"@ + n
        + ": Component ready\n"@
}

/// Flow of a forge, generator or build crate.
pub open spec fn builder_steps(
    acc: Seq<char>,
    n: Seq<char>,
    deps: Seq<Seq<char>>,
    has_dependents: bool,
    t: Seq<char>,
) -> Seq<char> {
    let a = if has_dependents {
        acc + "    Note over "@ + n + ": Configuration\n"@ + "    "@ + t + "->>"@ + n
            + ": Provide config\n"@
    } else {
        acc
    };
    let b = a + "    "@ + n + "->>"@ + n + ": Parse and validate\n"@;
    let c = if deps.len() > 0 {
        let c1 = request_lines(b + "\n    Note over "@ + n + ": Generation\n"@, n, dashed(deps[0]));
        if deps.len() > 1 {
            request_lines(c1, n, dashed(deps[1]))
        } else {
            c1
        }
    } else {
        b
    };
    let e = c + "    "@ + n + "->>"@ + n + ": Assemble artifact\n"@;
    if has_dependents {
        e + "    "@ + n + "-->>"@ + t + ": Return artifact\n"@
    } else {
        e
    }
}

fn write_request(out: &mut String, n: &str, dep: &str)
    ensures
        final(out)@ == request_lines(old(out)@, n@, dashed(dep@)),
{
    let d = dashed_name(dep);
    append5(out, "    ", n, "->>", d.as_str(), ": Request component\n");
    append5(out, "    ", d.as_str(), "-->>", n, ": Component ready\n");
}

fn write_builder_steps(out: &mut String, n: &str, deps: &Vec<String>, has_dependents: bool, t: &str)
    ensures
        final(out)@ == builder_steps(old(out)@, n@, views(deps@), has_dependents, t@),
{
    if has_dependents {
        append3(out, "    Note over ", n, ": Configuration\n");
        append5(out, "    ", t, "->>", n, ": Provide config\n");
    }
    append5(out, "    ", n, "->>", n, ": Parse and validate\n");
    if deps.len() > 0 {
        append3(out, "\n    Note over ", n, ": Generation\n");
        write_request(out, n, deps[0].as_str());
        if deps.len() > 1 {
            write_request(out, n, deps[1].as_str());
        }
    }
    append5(out, "    ", n, "->>", n, ": Assemble artifact\n");
    if has_dependents {
        append5(out, "    ", n, "-->>", t, ": Return artifact\n");
    }
}

/// Flow of an operator, client, CLI or TUI crate.
pub open spec fn client_steps(acc: Seq<char>, n: Seq<char>, has_deps: bool, d: Seq<char>) -> Seq<char> {
    let a = acc + "    Note over "@ + n + ": User interaction\n"@ + "    User->>"@ + n
        + ": User action/input\n"@;
    let b = if has_deps {
        a + "\n    Note over "@ + n + ": API communication\n"@ + "    "@ + n + "->>"@ + d
            + ": API request\n"@ + "    "@ + d + "-->>"@ + n + ": API response\n"@
    } else {
        a
    };
    b + "\n    "@ + n + "->>User: Update UI state\n"@
}

fn write_client_steps(out: &mut String, n: &str, has_deps: bool, d: &str)
    ensures
        final(out)@ == client_steps(old(out)@, n@, has_deps, d@),
{
    append3(out, "    Note over ", n, ": User interaction\n");
    append3(out, "    User->>", n, ": User action/input\n");
    if has_deps {
        append3(out, "\n    Note over ", n, ": API communication\n");
        append5(out, "    ", n, "->>", d, ": API request\n");
        append5(out, "    ", d, "-->>", n, ": API response\n");
    }
    append3(out, "\n    ", n, "->>User: Update UI state\n");
}

/// Flow of any other crate.
pub open spec fn plain_steps(
    acc: Seq<char>,
    n: Seq<char>,
    has_deps: bool,
    d: Seq<char>,
    has_dependents: bool,
    t: Seq<char>,
) -> Seq<char> {
    let a = if has_deps {
        acc + "    Note over "@ + n + ", "@ + d + ": Dependency initialization\n"@ + "    "@ + n + "->>"@
            + d + ": Request/Invoke\n"@ + "    "@ + d + "-->>"@ + n + ": Response/Return\n"@
    } else {
        acc
    };
    let b = if has_dependents {
        a + "\n    Note over "@ + t + ", "@ + n + ": Client interaction\n"@ + "    "@ + t + "->>"@ + n
            + ": API call/Request\n"@ + "    "@ + n + "-->>"@ + t + ": Response\n"@
    } else {
        a
    };
    if !has_deps && !has_dependents {
        b + "    Note over "@ + n + ": Internal operations\n"@
    } else {
        b
    }
}

fn write_plain_steps(out: &mut String, n: &str, has_deps: bool, d: &str, has_dependents: bool, t: &str)
    ensures
        final(out)@ == plain_steps(old(out)@, n@, has_deps, d@, has_dependents, t@),
{
    if has_deps {
        append5(out, "    Note over ", n, ", ", d, ": Dependency initialization\n");
        append5(out, "    ", n, "->>", d, ": Request/Invoke\n");
        append5(out, "    ", d, "-->>", n, ": Response/Return\n");
    }
    if has_dependents {
        append5(out, "\n    Note over ", t, ", ", n, ": Client interaction\n");
        append5(out, "    ", t, "->>", n, ": API call/Request\n");
        append5(out, "    ", n, "-->>", t, ": Response\n");
    }
    if !has_deps && !has_dependents {
        append3(out, "    Note over ", n, ": Internal operations\n");
    }
}

/// Whether the identifier form of the crate name holds one of the words.
pub open spec fn mentions_any(nn: Seq<char>, words: Seq<Seq<char>>) -> bool {
    exists|k: int| 0 <= k < words.len() && contains_seq(nn, #[trigger] words[k])
}

fn mentions_word(nn: &[char], words: &Vec<&str>) -> (r: bool)
    ensures
        r == mentions_any(nn@, words@.map_values(|w: &str| w@)),
{
    let ghost wv = words@.map_values(|w: &str| w@);
    let mut k: usize = 0;
    while k < words.len()
        invariant
            k <= words.len(),
            wv == words@.map_values(|w: &str| w@),
            forall|j: int| 0 <= j < k ==> !contains_seq(nn@, #[trigger] wv[j]),
        decreases words.len() - k,
    {
        let w = chars_of(words[k]);
        assert(wv[k as int] == words@[k as int]@);
        if has_piece(nn, &w) {
            return true;
        }
        k = k + 1;
    }
    false
}

/// The sequence-diagram steps for a crate, chosen by the words in its
/// identifier form: agent/beacon/implant, core/server/kernel,
/// storage/db/repo, forge/generat/build, operator/client/cli/tui, in that
/// order, else a plain flow.
pub open spec fn sequence_steps(n: Seq<char>, deps: Seq<Seq<char>>, dependents: Seq<Seq<char>>) -> Seq<
    char,
> {
    let nn = underscored(n);
    let d = first_or(deps, n);
    let t = first_or(dependents, n);
    let e = Seq::<char>::empty();
    let hd = deps.len() > 0;
    let ht = dependents.len() > 0;
    if mentions_any(nn, seq!["agent"@, "beacon"@, "implant"@]) {
        agent_steps(e, n, hd, d)
    } else if mentions_any(nn, seq!["core"@, "server"@, "kernel"@]) {
        server_steps(e, n, hd, d, ht, t)
    } else if mentions_any(nn, seq!["storage"@, "db"@, "repo"@]) {
        storage_steps(e, n, hd, d, t)
    } else if mentions_any(nn, seq!["forge"@, "generat"@, "build"@]) {
        builder_steps(e, n, deps, ht, t)
    } else if mentions_any(nn, seq!["operator"@, "client"@, "cli"@, "tui"@]) {
        client_steps(e, n, hd, d)
    } else {
        plain_steps(e, n, hd, d, ht, t)
    }
}

/// The steps of a crate's sequence diagram.
pub fn generate_sequence_flow(info: &CrateInfo) -> (r: String)
    ensures
        r@ == sequence_steps(info.name@, views(info.dependencies@), views(info.dependents@)),
{
    let mut f = String::new();
    let n = info.name.as_str();
    let normalized = normalize_crate_name(n);
    let nn = chars_of(normalized.as_str());
    let deps = &info.dependencies;
    let dependents = &info.dependents;
    let dep0 = first_or_name(deps, n);
    let dep_t0 = first_or_name(dependents, n);
    let hd = deps.len() > 0;
    let ht = dependents.len() > 0;
    let w_agent = vec!["agent", "beacon", "implant"];
    let w_server = vec!["core", "server", "kernel"];
    let w_storage = vec!["storage", "db", "repo"];
    let w_builder = vec!["forge", "generat", "build"];
    let w_client = vec!["operator", "client", "cli", "tui"];
    assert(w_agent@.map_values(|w: &str| w@) =~= seq!["agent"@, "beacon"@, "implant"@]);
    assert(w_server@.map_values(|w: &str| w@) =~= seq!["core"@, "server"@, "kernel"@]);
    assert(w_storage@.map_values(|w: &str| w@) =~= seq!["storage"@, "db"@, "repo"@]);
    assert(w_builder@.map_values(|w: &str| w@) =~= seq!["forge"@, "generat"@, "build"@]);
    assert(w_client@.map_values(|w: &str| w@) =~= seq!["operator"@, "client"@, "cli"@, "tui"@]);
    if mentions_word(&nn, &w_agent) {
        write_agent_steps(&mut f, n, hd, dep0.as_str());
    } else if mentions_word(&nn, &w_server) {
        write_server_steps(&mut f, n, hd, dep0.as_str(), ht, dep_t0.as_str());
    } else if mentions_word(&nn, &w_storage) {
        write_storage_steps(&mut f, n, hd, dep0.as_str(), dep_t0.as_str());
    } else if mentions_word(&nn, &w_builder) {
        write_builder_steps(&mut f, n, deps, ht, dep_t0.as_str());
    } else if mentions_word(&nn, &w_client) {
        write_client_steps(&mut f, n, hd, dep0.as_str());
    } else {
        write_plain_steps(&mut f, n, hd, dep0.as_str(), ht, dep_t0.as_str());
    }
    f
}

// ---------------------------------------------------------------------------
// The crate page

/// The YAML block of a crate page.
pub open spec fn crate_yaml(
    acc: Seq<char>,
    name: Seq<char>,
    rel: Seq<char>,
    version: Seq<char>,
    description: Seq<char>,
    kind: Seq<char>,
    ws: Seq<Seq<char>>,
    dependents: Seq<Seq<char>>,
) -> Seq<char> {
    let a = acc + "# "@ + name + "\n\n"@ + description + "\n\n"@ + "---\n```yaml\ncrate:\n"@
        + "  name: "@ + name + "\n"@ + "  path: "@ + rel + "\n"@ + "  version: "@ + version + "\n"@
        + "  type: "@ + kind + "\n"@ + "  description: "@ + description + "\n"@;
    let b = if ws.len() > 0 {
        item_lines(a + "\nworkspace_dependencies:\n"@, ws, "  - "@, Form::Dashed, "\n"@)
    } else {
        a
    };
    let c = if dependents.len() > 0 {
        item_lines(b + "\ndependents:\n"@, dependents, "  - "@, Form::Dashed, "\n"@)
    } else {
        b
    };
    c + "```\n---\n\n"@
}

fn write_crate_yaml(
    out: &mut String,
    name: &str,
    rel: &str,
    version: &str,
    description: &str,
    kind: &str,
    ws: &Vec<String>,
    dependents: &Vec<String>,
)
    ensures
        final(out)@ == crate_yaml(
            old(out)@,
            name@,
            rel@,
            version@,
            description@,
            kind@,
            views(ws@),
            views(dependents@),
        ),
{
    append5(out, "# ", name, "\n\n", description, "\n\n");
    out.append("---\n```yaml\ncrate:\n");
    append3(out, "  name: ", name, "\n");
    append3(out, "  path: ", rel, "\n");
    append3(out, "  version: ", version, "\n");
    append3(out, "  type: ", kind, "\n");
    append3(out, "  description: ", description, "\n");
    if ws.len() > 0 {
        out.append("\nworkspace_dependencies:\n");
        append_item_lines(out, ws, "  - ", Form::Dashed, "\n");
    }
    if dependents.len() > 0 {
        out.append("\ndependents:\n");
        append_item_lines(out, dependents, "  - ", Form::Dashed, "\n");
    }
    out.append("```\n---\n\n");
}

/// One flowchart node per module: its path in identifier form under the
/// crate, labelled with its display name.
pub open spec fn module_nodes(acc: Seq<char>, nn: Seq<char>, ms: Seq<ModuleView>) -> Seq<char>
    decreases ms.len(),
{
    if ms.len() == 0 {
        acc
    } else {
        module_nodes(acc, nn, ms.drop_last()) + "        "@ + nn + "__"@ + underscored(
            ms.last().path,
        ) + "[\""@ + ms.last().display + "\"]\n"@
    }
}

fn write_module_nodes(out: &mut String, nn: &str, modules: &Vec<ModuleInfo>)
    ensures
        final(out)@ == module_nodes(old(out)@, nn@, module_views(modules@)),
{
    let ghost mv = module_views(modules@);
    let mut i: usize = 0;
    while i < modules.len()
        invariant
            i <= modules.len(),
            mv == module_views(modules@),
            out@ == module_nodes(old(out)@, nn@, mv.take(i as int)),
        decreases modules.len() - i,
    {
        assert(mv.take(i + 1).drop_last() =~= mv.take(i as int));
        assert(mv[i as int] == modules@[i as int]@);
        let m = &modules[i];
        let id = normalize_crate_name(m.path.as_str());
        append4(out, "        ", nn, "__", id.as_str());
        append3(out, "[\"", m.display.as_str(), "\"]\n");
        i = i + 1;
    }
    assert(mv.take(i as int) =~= mv);
}

/// The flowchart of a crate page.
pub open spec fn crate_flowchart(
    acc: Seq<char>,
    name: Seq<char>,
    nn: Seq<char>,
    modules: Seq<ModuleView>,
    ws: Seq<Seq<char>>,
    dependents: Seq<Seq<char>>,
) -> Seq<char> {
    let a = module_nodes(
        acc + "## Flowchart Diagram\n\n```mermaid\nflowchart TD\n"@ + "    subgraph "@ + nn + "[\""@
            + name + "\"]\n"@,
        nn,
        modules,
    ) + "    end\n"@;
    let b = if ws.len() > 0 {
        let b1 = pair_lines(
            a + "\n    subgraph dependencies[\"Dependencies\"]\n"@,
            ws,
            "        "@,
            Form::Same,
            "[\""@,
            Form::Dashed,
            "\"]\n"@,
        ) + "    end\n"@;
        item_lines(b1, ws, "    "@ + nn + " --> "@, Form::Same, "\n"@)
    } else {
        a
    };
    let c = if dependents.len() > 0 {
        let c1 = pair_lines(
            b + "\n    subgraph dependents[\"Dependents\"]\n"@,
            dependents,
            "        "@,
            Form::Same,
            "[\""@,
            Form::Dashed,
            "\"]\n"@,
        ) + "    end\n"@;
        item_lines(c1, dependents, "    "@, Form::Same, " --> "@ + nn + "\n"@)
    } else {
        b
    };
    c + "```\n\n"@
}

fn write_crate_flowchart(
    out: &mut String,
    name: &str,
    nn: &str,
    modules: &Vec<ModuleInfo>,
    ws: &Vec<String>,
    dependents: &Vec<String>,
)
    ensures
        final(out)@ == crate_flowchart(
            old(out)@,
            name@,
            nn@,
            module_views(modules@),
            views(ws@),
            views(dependents@),
        ),
{
    out.append("## Flowchart Diagram\n\n```mermaid\nflowchart TD\n");
    append5(out, "    subgraph ", nn, "[\"", name, "\"]\n");
    write_module_nodes(out, nn, modules);
    out.append("    end\n");
    if ws.len() > 0 {
        out.append("\n    subgraph dependencies[\"Dependencies\"]\n");
        append_pair_lines(out, ws, "        ", Form::Same, "[\"", Form::Dashed, "\"]\n");
        out.append("    end\n");
        let mut arrow = String::from_str("    ");
        append2(&mut arrow, nn, " --> ");
        append_item_lines(out, ws, arrow.as_str(), Form::Same, "\n");
    }
    if dependents.len() > 0 {
        out.append("\n    subgraph dependents[\"Dependents\"]\n");
        append_pair_lines(out, dependents, "        ", Form::Same, "[\"", Form::Dashed, "\"]\n");
        out.append("    end\n");
        let mut tail = String::from_str(" --> ");
        append2(&mut tail, nn, "\n");
        append_item_lines(out, dependents, "    ", Form::Same, tail.as_str());
    }
    out.append("```\n\n");
}

/// The sequence diagram of a crate page.
pub open spec fn crate_sequence(
    acc: Seq<char>,
    name: Seq<char>,
    ws: Seq<Seq<char>>,
    dependents: Seq<Seq<char>>,
) -> Seq<char> {
    numbered_lines(
        acc + "## Sequence Diagram\n\n```mermaid\nsequenceDiagram\n"@,
        participants(name, ws, dependents),
        "    participant P"@,
        " as "@,
        "\n"@,
    ) + "\n"@ + sequence_steps(name, ws, dependents) + "```\n\n"@
}

fn write_crate_sequence(out: &mut String, info: &CrateInfo)
    ensures
        final(out)@ == crate_sequence(
            old(out)@,
            info.name@,
            views(info.dependencies@),
            views(info.dependents@),
        ),
{
    out.append("## Sequence Diagram\n\n```mermaid\nsequenceDiagram\n");
    let ps = build_participants(info);
    append_numbered_lines(out, &ps, "    participant P", " as ", "\n");
    out.append("\n");
    let flow = generate_sequence_flow(info);
    out.append(flow.as_str());
    out.append("```\n\n");
}

/// One summary line per module: a directory with its item count and, when
/// it has any, its children; a file with its item count when it is not zero.
pub open spec fn module_summary(acc: Seq<char>, ms: Seq<ModuleView>) -> Seq<char>
    decreases ms.len(),
{
    if ms.len() == 0 {
        acc
    } else {
        let a = module_summary(acc, ms.drop_last());
        let m = ms.last();
        if m.is_dir {
            if m.children.len() == 0 {
                a + "- **"@ + m.display + "** ("@ + decimal(m.item_count) + " items)\n"@
            } else {
                a + "- **"@ + m.display + "** ("@ + decimal(m.item_count) + " items) \u{2014} "@
                    + join(m.children, ", "@) + "\n"@
            }
        } else if m.item_count > 0 {
            a + "- **"@ + m.display + "** ("@ + decimal(m.item_count) + " items)\n"@
        } else {
            a + "- **"@ + m.display + "**\n"@
        }
    }
}

fn write_module_summary(out: &mut String, modules: &Vec<ModuleInfo>)
    ensures
        final(out)@ == module_summary(old(out)@, module_views(modules@)),
{
    let ghost mv = module_views(modules@);
    let mut i: usize = 0;
    while i < modules.len()
        invariant
            i <= modules.len(),
            mv == module_views(modules@),
            out@ == module_summary(old(out)@, mv.take(i as int)),
        decreases modules.len() - i,
    {
        assert(mv.take(i + 1).drop_last() =~= mv.take(i as int));
        assert(mv[i as int] == modules@[i as int]@);
        let m = &modules[i];
        if m.is_dir {
            if m.children.len() == 0 {
                append3(out, "- **", m.display.as_str(), "** (");
                append_decimal(out, m.item_count);
                out.append(" items)\n");
            } else {
                append3(out, "- **", m.display.as_str(), "** (");
                append_decimal(out, m.item_count);
                out.append(" items) \u{2014} ");
                append_joined(out, &m.children, ", ");
                out.append("\n");
            }
        } else if m.item_count > 0 {
            append3(out, "- **", m.display.as_str(), "** (");
            append_decimal(out, m.item_count);
            out.append(" items)\n");
        } else {
            append3(out, "- **", m.display.as_str(), "**\n");
        }
        i = i + 1;
    }
    assert(mv.take(i as int) =~= mv);
}

/// The sentence that places a crate in the dependency graph.
pub open spec fn graph_role(acc: Seq<char>, n_deps: nat, n_dependents: nat) -> Seq<char> {
    if n_deps == 0 && n_dependents == 0 {
        acc + "Standalone crate \u{2014} no workspace dependencies or dependents.\n"@
    } else if n_deps == 0 {
        acc + "Foundation node \u{2014} depended upon by "@ + decimal(n_dependents)
            + " crates, no workspace dependencies.\n"@
    } else if n_dependents == 0 {
        acc + "Leaf node \u{2014} depends on "@ + decimal(n_deps)
            + " workspace crates, nothing depends on it.\n"@
    } else {
        acc + "Intermediate node \u{2014} depends on "@ + decimal(n_deps)
            + " crates, depended upon by "@ + decimal(n_dependents) + " crates.\n"@
    }
}

fn write_graph_role(out: &mut String, n_deps: usize, n_dependents: usize)
    ensures
        final(out)@ == graph_role(old(out)@, n_deps as nat, n_dependents as nat),
{
    if n_deps == 0 && n_dependents == 0 {
        out.append("Standalone crate \u{2014} no workspace dependencies or dependents.\n");
    } else if n_deps == 0 {
        out.append("Foundation node \u{2014} depended upon by ");
        append_decimal(out, n_dependents);
        out.append(" crates, no workspace dependencies.\n");
    } else if n_dependents == 0 {
        out.append("Leaf node \u{2014} depends on ");
        append_decimal(out, n_deps);
        out.append(" workspace crates, nothing depends on it.\n");
    } else {
        out.append("Intermediate node \u{2014} depends on ");
        append_decimal(out, n_deps);
        out.append(" crates, depended upon by ");
        append_decimal(out, n_dependents);
        out.append(" crates.\n");
    }
}

/// The summary of a crate page.
pub open spec fn crate_summary(
    acc: Seq<char>,
    description: Seq<char>,
    modules: Seq<ModuleView>,
    n_deps: nat,
    n_dependents: nat,
) -> Seq<char> {
    let a = acc + "## Summary and Key Insights\n\n### Purpose\n"@ + description + "\n\n"@
        + "### Key Components\n"@;
    let b = if modules.len() == 0 {
        a + "- No module structure detected\n"@
    } else {
        module_summary(a, modules)
    };
    graph_role(b + "\n### Dependency Role\n"@, n_deps, n_dependents)
}

fn write_crate_summary(
    out: &mut String,
    description: &str,
    modules: &Vec<ModuleInfo>,
    n_deps: usize,
    n_dependents: usize,
)
    ensures
        final(out)@ == crate_summary(
            old(out)@,
            description@,
            module_views(modules@),
            n_deps as nat,
            n_dependents as nat,
        ),
{
    out.append("## Summary and Key Insights\n\n### Purpose\n");
    append2(out, description, "\n\n");
    out.append("### Key Components\n");
    if modules.len() == 0 {
        out.append("- No module structure detected\n");
    } else {
        write_module_summary(out, modules);
    }
    out.append("\n### Dependency Role\n");
    write_graph_role(out, n_deps, n_dependents);
}

/// The version and description taken from a manifest text, or `0.0.0` and
/// nothing when there is no manifest.
pub open spec fn manifest_fields(cargo_toml: Option<Seq<char>>) -> (Seq<char>, Seq<char>) {
    match cargo_toml {
        Some(c) => (manifest_scan(lines(c)).version, manifest_scan(lines(c)).description),
        None => ("0.0.0"@, Seq::empty()),
    }
}

/// The Markdown page of one crate, given its name, its directory, the text of
/// its `Cargo.toml` if it has one, which of `src/main.rs`, `src/lib.rs` and
/// `lib.rs` exist, its modules and the workspace dependency map.
pub open spec fn crate_page(
    name: Seq<char>,
    path: Seq<char>,
    cargo_toml: Option<Seq<char>>,
    has_src_main: bool,
    has_src_lib: bool,
    has_root_lib: bool,
    modules: Seq<ModuleView>,
    map: Seq<(Seq<char>, Seq<Seq<char>>)>,
) -> Seq<char> {
    let nn = underscored(name);
    let fields = manifest_fields(cargo_toml);
    let ws = map_get(map, nn);
    let dependents = dependents_in(map, nn);
    let a = crate_yaml(
        Seq::empty(),
        name,
        dir_name_text(path),
        fields.0,
        fields.1,
        crate_type_of(has_src_main, has_src_lib, has_root_lib),
        ws,
        dependents,
    );
    let b = crate_flowchart(a, name, nn, modules, ws, dependents);
    let c = crate_sequence(b, name, ws, dependents);
    crate_summary(c, fields.1, modules, ws.len(), dependents.len())
}

/// The Markdown page of one crate.
pub fn generate_crate_markdown(
    crate_name: &str,
    crate_path: &str,
    cargo_toml: &Option<String>,
    has_src_main: bool,
    has_src_lib: bool,
    has_root_lib: bool,
    modules: Vec<ModuleInfo>,
    dependency_map: &DependencyMap,
) -> (r: String)
    ensures
        r@ == crate_page(
            crate_name@,
            crate_path@,
            match cargo_toml {
                Some(c) => Some(c@),
                None => None,
            },
            has_src_main,
            has_src_lib,
            has_root_lib,
            module_views(modules@),
            dependency_map@,
        ),
{
    let normalized_name = normalize_crate_name(crate_name);
    let (version, description) = match cargo_toml {
        Some(c) => parse_cargo_toml(c.as_str()),
        None => (String::from_str("0.0.0"), String::new()),
    };
    let crate_type = detect_crate_type(has_src_main, has_src_lib, has_root_lib);
    let workspace_deps = dependency_map.get_or_empty(&normalized_name);
    let dependents = dependency_map.dependents_of(&normalized_name);
    let rel = dir_name_of(crate_path);
    let info = CrateInfo {
        name: String::from_str(crate_name),
        version,
        description,
        crate_type,
        dependencies: copy_strings(&workspace_deps),
        dependents,
        modules,
    };
    let mut out = String::new();
    write_crate_yaml(
        &mut out,
        crate_name,
        rel.as_str(),
        info.version.as_str(),
        info.description.as_str(),
        info.crate_type.as_str(),
        &workspace_deps,
        &info.dependents,
    );
    write_crate_flowchart(
        &mut out,
        crate_name,
        normalized_name.as_str(),
        &info.modules,
        &workspace_deps,
        &info.dependents,
    );
    write_crate_sequence(&mut out, &info);
    write_crate_summary(
        &mut out,
        info.description.as_str(),
        &info.modules,
        workspace_deps.len(),
        info.dependents.len(),
    );
    out
}

// ---------------------------------------------------------------------------
// The architecture page and the README

/// One YAML entry per workspace member: name, path below the project and
/// crate type.
pub open spec fn member_entries(acc: Seq<char>, members: Seq<WorkspaceMember>, project: Seq<char>) -> Seq<
    char,
>
    decreases members.len(),
{
    if members.len() == 0 {
        acc
    } else {
        let m = members.last();
        member_entries(acc, members.drop_last(), project) + "  - name: "@ + m.name@
            + "\n    path: "@ + relative_path_text(m.path@, project) + "\n    type: "@
            + crate_type_of(m.has_src_main, m.has_src_lib, m.has_root_lib) + "\n"@
    }
}

fn write_member_entries(out: &mut String, members: &Vec<WorkspaceMember>, project: &str)
    ensures
        final(out)@ == member_entries(old(out)@, members@, project@),
{
    let mut i: usize = 0;
    while i < members.len()
        invariant
            i <= members.len(),
            out@ == member_entries(old(out)@, members@.take(i as int), project@),
        decreases members.len() - i,
    {
        assert(members@.take(i + 1).drop_last() =~= members@.take(i as int));
        let m = &members[i];
        let rel = relative_display(m.path.as_str(), project);
        let ct = detect_crate_type(m.has_src_main, m.has_src_lib, m.has_root_lib);
        append5(out, "  - name: ", m.name.as_str(), "\n    path: ", rel.as_str(), "\n    type: ");
        append2(out, ct.as_str(), "\n");
        i = i + 1;
    }
    assert(members@.take(i as int) =~= members@);
}

/// The architecture page of a workspace.
pub open spec fn architecture_page(
    members: Seq<WorkspaceMember>,
    project: Seq<char>,
    map: Seq<(Seq<char>, Seq<Seq<char>>)>,
    all_crates: Seq<Seq<char>>,
) -> Seq<char> {
    let a = member_entries(
        "# Architecture Diagrams\n\nAI-optimized dependency visualization.\n\n---\n```yaml\ncrates:\n"@,
        members,
        project,
    ) + "\ndependencies:\n"@;
    let b = edge_lines(a, map, "  - "@, " -> "@, "\n"@)
        + "```\n---\n\n## Flowchart Diagram\n\n```mermaid\nflowchart TD\n"@;
    let c = pair_lines(b, all_crates, "    "@, Form::Same, "[\""@, Form::Dashed, "\"]\n"@) + "\n"@;
    let e = edge_lines(c, map, "    "@, " --> "@, "\n"@) + "```\n\n## Module Relationships\n\n"@;
    pair_lines(e, member_names(members), "- ["@, Form::Same, "]("@, Form::Underscored, ".md)\n"@)
        + "\n## Summary\n\nWorkspace with "@ + decimal(members.len())
        + " crates. See `output-md/` for details.\n"@
}

/// The architecture page of a workspace: its members, the dependency map and
/// the identifier forms of all crates.
pub fn generate_architecture_diagrams(
    project_path: &str,
    workspace_members: &Vec<WorkspaceMember>,
    dependency_map: &DependencyMap,
    all_crates: &Vec<String>,
) -> (r: String)
    ensures
        r@ == architecture_page(
            workspace_members@,
            project_path@,
            dependency_map@,
            views(all_crates@),
        ),
{
    let mut out = String::from_str(
        "# Architecture Diagrams\n\nAI-optimized dependency visualization.\n\n---\n```yaml\ncrates:\n",
    );
    write_member_entries(&mut out, workspace_members, project_path);
    out.append("\ndependencies:\n");
    append_edge_lines(&mut out, dependency_map, "  - ", " -> ", "\n");
    out.append("```\n---\n\n## Flowchart Diagram\n\n```mermaid\nflowchart TD\n");
    append_pair_lines(&mut out, all_crates, "    ", Form::Same, "[\"", Form::Dashed, "\"]\n");
    out.append("\n");
    append_edge_lines(&mut out, dependency_map, "    ", " --> ", "\n");
    out.append("```\n\n## Module Relationships\n\n");
    let names = names_of_members(workspace_members);
    append_pair_lines(&mut out, &names, "- [", Form::Same, "](", Form::Underscored, ".md)\n");
    out.append("\n## Summary\n\nWorkspace with ");
    append_decimal(&mut out, workspace_members.len());
    out.append(" crates. See `output-md/` for details.\n");
    out
}

/// The README of a workspace.
pub open spec fn readme_page(members: Seq<WorkspaceMember>, project: Seq<char>) -> Seq<char> {
    member_paths(
        "# Workspace Documentation\n\n## Generated Files\n\n- `ARCHITECTURE_DIAGRAMS.md` \u{2014} Mermaid architecture diagrams\n- `deps.svg` \u{2014} SVG dependency graph (cargo-arc)\n- `output-md/` \u{2014} Per-crate documentation\n\n## Workspace Members\n\n"@,
        members,
        project,
    ) + "\n## Regenerate\n\n- Bash: `./generate-docs.sh`\n- PowerShell: `./generate-docs.ps1`\n"@
}

/// The README of a workspace: its members and how to regenerate the pages.
pub fn generate_readme(project_path: &str, workspace_members: &Vec<WorkspaceMember>) -> (r: String)
    ensures
        r@ == readme_page(workspace_members@, project_path@),
{
    let mut out = String::from_str(
        "# Workspace Documentation\n\n## Generated Files\n\n- `ARCHITECTURE_DIAGRAMS.md` \u{2014} Mermaid architecture diagrams\n- `deps.svg` \u{2014} SVG dependency graph (cargo-arc)\n- `output-md/` \u{2014} Per-crate documentation\n\n## Workspace Members\n\n",
    );
    write_member_paths(&mut out, workspace_members, project_path);
    out.append("\n## Regenerate\n\n- Bash: `./generate-docs.sh`\n- PowerShell: `./generate-docs.ps1`\n");
    out
}

} // verus!
