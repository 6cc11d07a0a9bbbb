//! The workspace documentation generator: per-crate Markdown pages with a
//! module list, dependency flowchart and sequence diagram, the workspace
//! architecture page and the workspace README.
use crate::text::{
    append2, append3, append5, append_chars, append_decimal, append_item_lines,
    append_numbered_lines, append_pair_lines, before_char, chars_before, chars_of, contains_seq,
    copy_strings, dashed, dashed_name, decimal, has_piece, has_prefix, holds_text, item_lines,
    numbered_lines, pair_lines, same_text, second_field, second_piece, skip_chars, starts_with,
    string_of, trim, trim_chars, trim_end_chars, trim_end_set, trim_set, trim_ws, trimmed_lines,
    trimmed_lines_of, underscored, views, CharSet, Form,
};
use crate::markdown::{
    append_edge_lines, edge_lines, member_names, member_paths, names_of_members, write_member_paths,
};
use crate::workspace::{
    add_absent, dependents_in, dir_name_of, dir_name_text, map_get, normalize_crate_name,
    participants, relative_display, relative_path_text, DependencyMap, WorkspaceMember,
};
use vstd::prelude::*;
use vstd::string::StringExecFns;

verus! {

/// What one source file declares: its public items, its public submodules and
/// its `use` paths.
pub struct ModuleInfo {
    pub name: String,
    pub items: Vec<String>,
    pub submodules: Vec<String>,
    pub uses: Vec<String>,
}

/// The text of a [`ModuleInfo`].
pub struct ModuleView {
    pub name: Seq<char>,
    pub items: Seq<Seq<char>>,
    pub submodules: Seq<Seq<char>>,
    pub uses: Seq<Seq<char>>,
}

impl View for ModuleInfo {
    type V = ModuleView;

    open spec fn view(&self) -> ModuleView {
        ModuleView {
            name: self.name@,
            items: views(self.items@),
            submodules: views(self.submodules@),
            uses: views(self.uses@),
        }
    }
}

pub open spec fn module_views(ms: Seq<ModuleInfo>) -> Seq<ModuleView> {
    ms.map_values(|m: ModuleInfo| m@)
}

/// An entry of the crate's `src/` directory.
pub struct SourceFile {
    /// The file stem (the name without its extension).
    pub stem: String,
    /// Whether the name has the extension `rs`.
    pub is_rs: bool,
    /// The file's text, when it was read.
    pub content: Option<String>,
}

/// Everything the crate page shows about one crate.
pub struct CrateInfo {
    pub name: String,
    pub version: String,
    pub description: String,
    pub crate_type: String,
    pub dependencies: Vec<String>,
    pub dependents: Vec<String>,
    pub modules: Vec<ModuleInfo>,
}

/// What one trimmed line of Rust source declares.
pub enum RustLine {
    Item(Seq<char>),
    Submodule(Seq<char>),
    Use(Seq<char>),
    Other,
}

/// A type name after its keyword: up to `<` and `{`, trimmed.
pub open spec fn declared_name(rest: Seq<char>) -> Seq<char> {
    trim(before_char(before_char(rest, '<'), '{'))
}

/// What a trimmed line declares, tested in this order: a public function,
/// struct, enum, trait, a public module, a `use`.
pub open spec fn classify(l: Seq<char>) -> RustLine {
    if starts_with(l, "pub fn "@) {
        RustLine::Item("fn "@ + before_char(l.skip("pub fn "@.len() as int), '('))
    } else if starts_with(l, "pub struct "@) {
        RustLine::Item("struct "@ + declared_name(l.skip("pub struct "@.len() as int)))
    } else if starts_with(l, "pub enum "@) {
        RustLine::Item("enum "@ + declared_name(l.skip("pub enum "@.len() as int)))
    } else if starts_with(l, "pub trait "@) {
        RustLine::Item("trait "@ + declared_name(l.skip("pub trait "@.len() as int)))
    } else if starts_with(l, "pub mod "@) {
        RustLine::Submodule(
            trim(before_char(before_char(l.skip("pub mod "@.len() as int), ';'), '{')),
        )
    } else if starts_with(l, "use "@) {
        RustLine::Use(trim(trim_end_set(l.skip("use "@.len() as int), CharSet::Only(';'))))
    } else {
        RustLine::Other
    }
}

/// The items declared by the lines, in order.
pub open spec fn items_of(ls: Seq<Seq<char>>) -> Seq<Seq<char>>
    decreases ls.len(),
{
    if ls.len() == 0 {
        Seq::empty()
    } else {
        let r = items_of(ls.drop_last());
        match classify(ls.last()) {
            RustLine::Item(x) => r.push(x),
            _ => r,
        }
    }
}

/// The submodules declared by the lines, in order.
pub open spec fn submodules_of(ls: Seq<Seq<char>>) -> Seq<Seq<char>>
    decreases ls.len(),
{
    if ls.len() == 0 {
        Seq::empty()
    } else {
        let r = submodules_of(ls.drop_last());
        match classify(ls.last()) {
            RustLine::Submodule(x) => r.push(x),
            _ => r,
        }
    }
}

/// The `use` paths of the lines, in order.
pub open spec fn uses_of(ls: Seq<Seq<char>>) -> Seq<Seq<char>>
    decreases ls.len(),
{
    if ls.len() == 0 {
        Seq::empty()
    } else {
        let r = uses_of(ls.drop_last());
        match classify(ls.last()) {
            RustLine::Use(x) => r.push(x),
            _ => r,
        }
    }
}

/// The module that a source text with a given name describes.
pub open spec fn module_of(content: Seq<char>, name: Seq<char>) -> ModuleView {
    let ls = trimmed_lines(content);
    ModuleView { name, items: items_of(ls), submodules: submodules_of(ls), uses: uses_of(ls) }
}

/// `kw` followed by the given characters.
fn keyword_and(kw: &str, rest: &[char]) -> (r: String)
    ensures
        r@ == kw@ + rest@,
{
    let mut s = String::from_str(kw);
    append_chars(&mut s, rest);
    s
}

/// A type name after its keyword, as a string.
fn declared_name_of(rest: &[char]) -> (r: Vec<char>)
    ensures
        r@ == declared_name(rest@),
{
    let a = chars_before(rest, '<');
    let b = chars_before(&a, '{');
    trim_ws(&b)
}

/// The public items, submodules and `use` paths that a Rust source text
/// declares, line by line.
pub fn parse_rust_file(content: &str, module_name: &str) -> (r: ModuleInfo)
    ensures
        r@ == module_of(content@, module_name@),
{
    let ls = trimmed_lines_of(content);
    let ghost lv = trimmed_lines(content@);
    let p_fn = chars_of("pub fn ");
    let p_struct = chars_of("pub struct ");
    let p_enum = chars_of("pub enum ");
    let p_trait = chars_of("pub trait ");
    let p_mod = chars_of("pub mod ");
    let p_use = chars_of("use ");
    let mut items: Vec<String> = Vec::new();
    let mut submodules: Vec<String> = Vec::new();
    let mut uses: Vec<String> = Vec::new();
    let mut i: usize = 0;
    while i < ls.len()
        invariant
            i <= ls.len(),
            ls@.map_values(|l: Vec<char>| l@) == lv,
            p_fn@ == "pub fn "@,
            p_struct@ == "pub struct "@,
            p_enum@ == "pub enum "@,
            p_trait@ == "pub trait "@,
            p_mod@ == "pub mod "@,
            p_use@ == "use "@,
            views(items@) == items_of(lv.take(i as int)),
            views(submodules@) == submodules_of(lv.take(i as int)),
            views(uses@) == uses_of(lv.take(i as int)),
        decreases ls.len() - i,
    {
        let line = &ls[i];
        assert(line@ == lv[i as int]);
        assert(lv.take(i + 1).drop_last() =~= lv.take(i as int));
        let ghost it0 = views(items@);
        let ghost sm0 = views(submodules@);
        let ghost us0 = views(uses@);
        if has_prefix(line, &p_fn) {
            let rest = skip_chars(line, p_fn.len());
            let name = chars_before(&rest, '(');
            items.push(keyword_and("fn ", &name));
            assert(views(items@) =~= it0.push("fn "@ + name@));
        } else if has_prefix(line, &p_struct) {
            let rest = skip_chars(line, p_struct.len());
            let name = declared_name_of(&rest);
            items.push(keyword_and("struct ", &name));
            assert(views(items@) =~= it0.push("struct "@ + name@));
        } else if has_prefix(line, &p_enum) {
            let rest = skip_chars(line, p_enum.len());
            let name = declared_name_of(&rest);
            items.push(keyword_and("enum ", &name));
            assert(views(items@) =~= it0.push("enum "@ + name@));
        } else if has_prefix(line, &p_trait) {
            let rest = skip_chars(line, p_trait.len());
            let name = declared_name_of(&rest);
            items.push(keyword_and("trait ", &name));
            assert(views(items@) =~= it0.push("trait "@ + name@));
        } else if has_prefix(line, &p_mod) {
            let rest = skip_chars(line, p_mod.len());
            let a = chars_before(&rest, ';');
            let b = chars_before(&a, '{');
            let name = trim_ws(&b);
            submodules.push(string_of(&name));
            assert(views(submodules@) =~= sm0.push(name@));
        } else if has_prefix(line, &p_use) {
            let rest = skip_chars(line, p_use.len());
            let a = trim_end_chars(&rest, CharSet::Only(';'));
            let path = trim_ws(&a);
            uses.push(string_of(&path));
            assert(views(uses@) =~= us0.push(path@));
        }
        i = i + 1;
    }
    assert(lv.take(i as int) =~= lv);
    ModuleInfo { name: String::from_str(module_name), items, submodules, uses }
}

/// The value of a `key = value` line: what stands between the first `=` and
/// the next one (`default` when there is no `=`), trimmed, without `"` at its
/// ends.
pub open spec fn toml_line_value(l: Seq<char>, default: Seq<char>) -> Seq<char> {
    trim_set(trim(second_field(l, '=', default)), CharSet::Only('"'))
}

/// The value of the last line that starts with `key`, or `initial` when no
/// line does.
pub open spec fn last_value(
    ls: Seq<Seq<char>>,
    key: Seq<char>,
    default: Seq<char>,
    initial: Seq<char>,
) -> Seq<char>
    decreases ls.len(),
{
    if ls.len() == 0 {
        initial
    } else if starts_with(ls.last(), key) {
        toml_line_value(ls.last(), default)
    } else {
        last_value(ls.drop_last(), key, default, initial)
    }
}

/// The version a manifest text declares: the last trimmed line starting with
/// `version =`, or `0.0.0`.
pub open spec fn manifest_version(content: Seq<char>) -> Seq<char> {
    last_value(trimmed_lines(content), "version ="@, "\"0.0.0\""@, "0.0.0"@)
}

/// The description a manifest text declares: the last trimmed line starting
/// with `description =`, or `Unknown`.
pub open spec fn manifest_description(content: Seq<char>) -> Seq<char> {
    last_value(trimmed_lines(content), "description ="@, "\"Unknown\""@, "Unknown"@)
}

/// The value of a `key = value` line.
fn line_value(line: &[char], default: &[char]) -> (r: String)
    ensures
        r@ == toml_line_value(line@, default@),
{
    let field = second_piece(line, '=', default);
    let t = trim_ws(&field);
    let v = trim_chars(&t, CharSet::Only('"'));
    string_of(&v)
}

/// The version, the description and the dependency list of a `Cargo.toml`
/// text. The dependency list is always empty.
pub fn parse_cargo_toml(content: &str) -> (r: (String, String, Vec<String>))
    ensures
        r.0@ == manifest_version(content@),
        r.1@ == manifest_description(content@),
        r.2@.len() == 0,
{
    let ls = trimmed_lines_of(content);
    let ghost lv = trimmed_lines(content@);
    let k_version = chars_of("version =");
    let k_description = chars_of("description =");
    let d_version = chars_of("\"0.0.0\"");
    let d_description = chars_of("\"Unknown\"");
    let mut version = String::from_str("0.0.0");
    let mut description = String::from_str("Unknown");
    let dependencies: Vec<String> = Vec::new();
    let mut i: usize = 0;
    while i < ls.len()
        invariant
            i <= ls.len(),
            ls@.map_values(|l: Vec<char>| l@) == lv,
            k_version@ == "version ="@,
            k_description@ == "description ="@,
            d_version@ == "\"0.0.0\""@,
            d_description@ == "\"Unknown\""@,
            version@ == last_value(lv.take(i as int), "version ="@, "\"0.0.0\""@, "0.0.0"@),
            description@ == last_value(
                lv.take(i as int),
                "description ="@,
                "\"Unknown\""@,
                "Unknown"@,
            ),
        decreases ls.len() - i,
    {
        let line = &ls[i];
        assert(line@ == lv[i as int]);
        assert(lv.take(i + 1).drop_last() =~= lv.take(i as int));
        if has_prefix(line, &k_version) {
            version = line_value(line, &d_version);
        } else if has_prefix(line, &k_description) {
            description = line_value(line, &d_description);
        }
        proof {
            lemma_keys_differ(lv[i as int]);
        }
        i = i + 1;
    }
    assert(lv.take(i as int) =~= lv);
    (version, description, dependencies)
}

proof fn lemma_keys_differ(l: Seq<char>)
    ensures
        !(starts_with(l, "version ="@) && starts_with(l, "description ="@)),
{
    reveal_strlit("version =");
    reveal_strlit("description =");
    if starts_with(l, "version ="@) && starts_with(l, "description ="@) {
        assert(l.take(9)[0] == l[0]);
        assert(l.take(13)[0] == l[0]);
    }
}

/// A file stem that is neither `main`, `lib` nor `mod`.
pub open spec fn is_plain_module(stem: Seq<char>) -> bool {
    stem != "main"@ && stem != "lib"@ && stem != "mod"@
}

/// The modules of the entries that are `.rs` files that were read and whose
/// stem is not `main`, `lib` or `mod`, in the order given.
pub open spec fn plain_modules(files: Seq<(Seq<char>, bool, Option<Seq<char>>)>) -> Seq<ModuleView>
    decreases files.len(),
{
    if files.len() == 0 {
        Seq::empty()
    } else {
        let r = plain_modules(files.drop_last());
        let f = files.last();
        match f.2 {
            Some(c) => if f.1 && is_plain_module(f.0) {
                r.push(module_of(c, f.0))
            } else {
                r
            },
            None => r,
        }
    }
}

pub open spec fn files_view(fs: Seq<SourceFile>) -> Seq<(Seq<char>, bool, Option<Seq<char>>)> {
    fs.map_values(
        |f: SourceFile|
            (
                f.stem@,
                f.is_rs,
                match f.content {
                    Some(c) => Some(c@),
                    None => None,
                },
            ),
    )
}

/// The modules of a crate: `main` when `src/main.rs` was read, `lib` when
/// `src/lib.rs` was read, then every other `.rs` file that was read, in
/// directory order.
pub open spec fn crate_modules(
    main_rs: Option<Seq<char>>,
    lib_rs: Option<Seq<char>>,
    files: Seq<(Seq<char>, bool, Option<Seq<char>>)>,
) -> Seq<ModuleView> {
    let a: Seq<ModuleView> = match main_rs {
        Some(c) => seq![module_of(c, "main"@)],
        None => Seq::empty(),
    };
    let b: Seq<ModuleView> = match lib_rs {
        Some(c) => a.push(module_of(c, "lib"@)),
        None => a,
    };
    b + plain_modules(files)
}

/// The modules of a crate from the texts of `src/main.rs` and `src/lib.rs`
/// (when they exist and could be read) and the entries of `src/`.
pub fn parse_crate_modules(
    main_rs: &Option<String>,
    lib_rs: &Option<String>,
    files: &Vec<SourceFile>,
) -> (r: Vec<ModuleInfo>)
    ensures
        module_views(r@) == crate_modules(
            match main_rs {
                Some(c) => Some(c@),
                None => None,
            },
            match lib_rs {
                Some(c) => Some(c@),
                None => None,
            },
            files_view(files@),
        ),
{
    let mut modules: Vec<ModuleInfo> = Vec::new();
    match main_rs {
        Some(c) => {
            modules.push(parse_rust_file(c.as_str(), "main"));
        },
        None => {},
    }
    match lib_rs {
        Some(c) => {
            modules.push(parse_rust_file(c.as_str(), "lib"));
        },
        None => {},
    }
    let ghost head = module_views(modules@);
    assert(head =~= crate_modules(
        match main_rs {
            Some(c) => Some(c@),
            None => None,
        },
        match lib_rs {
            Some(c) => Some(c@),
            None => None,
        },
        Seq::empty(),
    ).take(head.len() as int));
    let s_main = String::from_str("main");
    let s_lib = String::from_str("lib");
    let s_mod = String::from_str("mod");
    let ghost fv = files_view(files@);
    let mut i: usize = 0;
    while i < files.len()
        invariant
            i <= files.len(),
            fv == files_view(files@),
            s_main@ == "main"@,
            s_lib@ == "lib"@,
            s_mod@ == "mod"@,
            module_views(modules@) == head + plain_modules(fv.take(i as int)),
        decreases files.len() - i,
    {
        assert(fv.take(i + 1).drop_last() =~= fv.take(i as int));
        let f = &files[i];
        let ghost before = module_views(modules@);
        match &f.content {
            Some(c) => {
                assert(fv[i as int] == (f.stem@, f.is_rs, Some(c@)));
                if f.is_rs && !same_text_any(&f.stem, &s_main, &s_lib, &s_mod) {
                    modules.push(parse_rust_file(c.as_str(), f.stem.as_str()));
                    assert(module_views(modules@) =~= before.push(module_of(c@, f.stem@)));
                }
            },
            None => {
                assert(fv[i as int].2 is None);
            },
        }
        i = i + 1;
    }
    assert(fv.take(i as int) =~= fv);
    proof {
        let m = match main_rs {
            Some(c) => Some(c@),
            None => None,
        };
        let l = match lib_rs {
            Some(c) => Some(c@),
            None => None,
        };
        let e: Seq<(Seq<char>, bool, Option<Seq<char>>)> = Seq::empty();
        assert(plain_modules(e) =~= Seq::<ModuleView>::empty());
        assert(crate_modules(m, l, e) =~= head);
    }
    modules
}

/// Whether `s` holds the text of one of `a`, `b`, `c`.
fn same_text_any(s: &String, a: &String, b: &String, c: &String) -> (r: bool)
    ensures
        r == (s@ == a@ || s@ == b@ || s@ == c@),
{
    same_text(s, a) || same_text(s, b) || same_text(s, c)
}

/// The participants of a crate's sequence diagram: the crate, its workspace
/// dependencies, then its dependents not already present, at most six, all
/// in display form but the crate itself.
pub fn generate_sequence_participants(crate_info: &CrateInfo) -> (r: Vec<String>)
    ensures
        views(r@) == participants(
            crate_info.name@,
            views(crate_info.dependencies@),
            views(crate_info.dependents@),
        ),
{
    let ghost name = crate_info.name@;
    let ghost deps = views(crate_info.dependencies@);
    let ghost dependents = views(crate_info.dependents@);
    let mut p: Vec<String> = Vec::new();
    p.push(crate_info.name.clone());
    let mut i: usize = 0;
    while i < crate_info.dependencies.len()
        invariant
            i <= crate_info.dependencies.len(),
            deps == views(crate_info.dependencies@),
            views(p@) == seq![name] + deps.take(i as int).map_values(|d: Seq<char>| dashed(d)),
        decreases crate_info.dependencies.len() - i,
    {
        let ghost before = views(p@);
        p.push(dashed_name(crate_info.dependencies[i].as_str()));
        assert(views(p@) =~= before.push(dashed(deps[i as int])));
        assert(deps.take(i + 1).map_values(|d: Seq<char>| dashed(d)) =~= deps.take(
            i as int,
        ).map_values(|d: Seq<char>| dashed(d)).push(dashed(deps[i as int])));
        i = i + 1;
        assert(views(p@) =~= seq![name] + deps.take(i as int).map_values(
            |d: Seq<char>| dashed(d),
        ));
    }
    assert(deps.take(i as int) =~= deps);
    let ghost base = seq![name] + deps.map_values(|d: Seq<char>| dashed(d));
    let mut j: usize = 0;
    while j < crate_info.dependents.len()
        invariant
            j <= crate_info.dependents.len(),
            dependents == views(crate_info.dependents@),
            views(p@) == add_absent(base, dependents.take(j as int)),
        decreases crate_info.dependents.len() - j,
    {
        assert(dependents.take(j + 1).drop_last() =~= dependents.take(j as int));
        let nd = dashed_name(crate_info.dependents[j].as_str());
        if !holds_text(&p, &nd) {
            let ghost before = views(p@);
            p.push(nd);
            assert(views(p@) =~= before.push(nd@));
        }
        j = j + 1;
    }
    assert(dependents.take(j as int) =~= dependents);
    let ghost all = views(p@);
    p.truncate(6);
    assert(views(p@) =~= (if all.len() > 6 {
        all.take(6)
    } else {
        all
    }));
    p
}

/// The second participant, or the crate itself when there is none.
pub open spec fn second_or(ps: Seq<Seq<char>>, n: Seq<char>) -> Seq<char> {
    if ps.len() > 1 {
        ps[1]
    } else {
        n
    }
}

/// Flow of an agent or beacon crate.
pub open spec fn agent_flow(acc: Seq<char>, n: Seq<char>, deps: Seq<Seq<char>>, p1: Seq<char>) -> Seq<
    char,
> {
    let a = acc + "    Note over "@ + n + ": Initial check-in and key exchange\n"@;
    let b = if deps.len() > 0 {
        let d = dashed(deps[0]);
        a + "    "@ + n + "->>"@ + d + ": Generate cryptographic keys\n"@ + "    "@ + d + "-->>"@ + n
            + ": Key exchange complete\n"@
    } else {
        a
    };
    b + "\n    Note over "@ + n + ": Encrypted communication\n"@ + "    "@ + n + "->>"@ + p1
        + ": Send encrypted beacon/check-in\n"@ + "    "@ + p1 + "-->>"@ + n
        + ": Return tasks (encrypted)\n"@ + "\n    loop Task execution\n"@ + "        "@ + n + "->>"@
        + n + ": Decrypt and execute task\n"@ + "        "@ + n + "->>"@ + n + ": Encrypt result\n"@
        + "        "@ + n + "->>"@ + p1 + ": Submit result\n"@ + "    end\n"@
        + "\n    Note over "@ + n + ": Memory cleanup\n"@ + "    "@ + n + "->>"@ + n
        + ": Zeroize sensitive data\n"@
}

fn write_agent_flow(out: &mut String, n: &str, deps: &Vec<String>, p1: &str)
    ensures
        final(out)@ == agent_flow(old(out)@, n@, views(deps@), p1@),
{
    append3(out, "    Note over ", n, ": Initial check-in and key exchange\n");
    if deps.len() > 0 {
        let d = dashed_name(deps[0].as_str());
        append5(out, "    ", n, "->>", d.as_str(), ": Generate cryptographic keys\n");
        append5(out, "    ", d.as_str(), "-->>", n, ": Key exchange complete\n");
    }
    append3(out, "\n    Note over ", n, ": Encrypted communication\n");
    append5(out, "    ", n, "->>", p1, ": Send encrypted beacon/check-in\n");
    append5(out, "    ", p1, "-->>", n, ": Return tasks (encrypted)\n");
    out.append("\n    loop Task execution\n");
    append5(out, "        ", n, "->>", n, ": Decrypt and execute task\n");
    append5(out, "        ", n, "->>", n, ": Encrypt result\n");
    append5(out, "        ", n, "->>", p1, ": Submit result\n");
    out.append("    end\n");
    append3(out, "\n    Note over ", n, ": Memory cleanup\n");
    append5(out, "    ", n, "->>", n, ": Zeroize sensitive data\n");
}

/// Flow of a core or server crate.
pub open spec fn server_flow(
    acc: Seq<char>,
    n: Seq<char>,
    deps: Seq<Seq<char>>,
    dependents: Seq<Seq<char>>,
) -> Seq<char> {
    let a = acc + "    Note over "@ + n + ": API request handling\n"@;
    let b = if dependents.len() > 0 {
        a + "    "@ + dashed(dependents[0]) + "->>"@ + n + ": API request\n"@ + "    "@ + n + "->>"@ + n
            + ": Validate request\n"@
    } else {
        a
    };
    let c = if deps.len() > 0 {
        let d = dashed(deps[0]);
        b + "\n    Note over "@ + n + ": Storage operations\n"@ + "    "@ + n + "->>"@ + d
            + ": Query/Persist data\n"@ + "    "@ + d + "-->>"@ + n + ": Data result\n"@
    } else {
        b
    };
    let e = c + "\n    Note over "@ + n + ": Response\n"@;
    if dependents.len() > 0 {
        e + "    "@ + n + "-->>"@ + dashed(dependents[0]) + ": API response\n"@
    } else {
        e
    }
}

fn write_server_flow(out: &mut String, n: &str, deps: &Vec<String>, dependents: &Vec<String>)
    ensures
        final(out)@ == server_flow(old(out)@, n@, views(deps@), views(dependents@)),
{
    append3(out, "    Note over ", n, ": API request handling\n");
    if dependents.len() > 0 {
        let t = dashed_name(dependents[0].as_str());
        append5(out, "    ", t.as_str(), "->>", n, ": API request\n");
        append5(out, "    ", n, "->>", n, ": Validate request\n");
    }
    if deps.len() > 0 {
        let d = dashed_name(deps[0].as_str());
        append3(out, "\n    Note over ", n, ": Storage operations\n");
        append5(out, "    ", n, "->>", d.as_str(), ": Query/Persist data\n");
        append5(out, "    ", d.as_str(), "-->>", n, ": Data result\n");
    }
    append3(out, "\n    Note over ", n, ": Response\n");
    if dependents.len() > 0 {
        let t = dashed_name(dependents[0].as_str());
        append5(out, "    ", n, "-->>", t.as_str(), ": API response\n");
    }
}

/// Flow of a storage or database crate.
pub open spec fn storage_flow(acc: Seq<char>, n: Seq<char>, deps: Seq<Seq<char>>, p1: Seq<char>) -> Seq<
    char,
> {
    let a = acc + "    Note over "@ + n + ": Cache check\n"@ + "    "@ + p1 + "->>"@ + n
        + ": Check in-memory cache\n"@ + "\n    alt Cache hit\n"@ + "        "@ + n + "-->>"@ + p1
        + ": Return cached data\n"@ + "    else Cache miss\n"@;
    let b = if deps.len() > 0 {
        let d = dashed(deps[0]);
        a + "        "@ + n + "->>"@ + d + ": Query database\n"@ + "        "@ + d + "-->>"@ + n
            + ": Database result\n"@ + "        "@ + n + "->>"@ + n + ": Update cache\n"@
    } else {
        a
    };
    b + "        "@ + n + "-->>"@ + p1 + ": Return data\n"@ + "    end\n"@
}

fn write_storage_flow(out: &mut String, n: &str, deps: &Vec<String>, p1: &str)
    ensures
        final(out)@ == storage_flow(old(out)@, n@, views(deps@), p1@),
{
    append3(out, "    Note over ", n, ": Cache check\n");
    append5(out, "    ", p1, "->>", n, ": Check in-memory cache\n");
    out.append("\n    alt Cache hit\n");
    append5(out, "        ", n, "-->>", p1, ": Return cached data\n");
    out.append("    else Cache miss\n");
    if deps.len() > 0 {
        let d = dashed_name(deps[0].as_str());
        append5(out, "        ", n, "->>", d.as_str(), ": Query database\n");
        append5(out, "        ", d.as_str(), "-->>", n, ": Database result\n");
        append5(out, "        ", n, "->>", n, ": Update cache\n");
    }
    append5(out, "        ", n, "-->>", p1, ": Return data\n");
    out.append("    end\n");
}

/// One requested component of a generator's flow.
pub open spec fn component_lines(acc: Seq<char>, n: Seq<char>, d: Seq<char>) -> Seq<char> {
    acc + "    "@ + n + "->>"@ + d + ": Request generation component\n"@ + "    "@ + d + "-->>"@ + n
        + ": Component ready\n"@
}

/// Flow of a forge or generator crate.
pub open spec fn generator_flow(
    acc: Seq<char>,
    n: Seq<char>,
    deps: Seq<Seq<char>>,
    dependents: Seq<Seq<char>>,
) -> Seq<char> {
    let a = acc + "    Note over "@ + n + ": Configuration\n"@;
    let b = if dependents.len() > 0 {
        a + "    "@ + dashed(dependents[0]) + "->>"@ + n + ": Provide generation config\n"@
    } else {
        a
    };
    let c = b + "    "@ + n + "->>"@ + n + ": Parse and validate config\n"@;
    let e = if deps.len() > 0 {
        let c1 = c + "\n    Note over "@ + n + ": Generation process\n"@;
        let c2 = component_lines(c1, n, dashed(deps[0]));
        if deps.len() > 1 {
            component_lines(c2, n, dashed(deps[1]))
        } else {
            c2
        }
    } else {
        c
    };
    let f = e + "\n    Note over "@ + n + ": Final output\n"@ + "    "@ + n + "->>"@ + n
        + ": Assemble final artifact\n"@;
    if dependents.len() > 0 {
        f + "    "@ + n + "-->>"@ + dashed(dependents[0]) + ": Return generated artifact\n"@
    } else {
        f
    }
}

fn write_component(out: &mut String, n: &str, dep: &str)
    ensures
        final(out)@ == component_lines(old(out)@, n@, dashed(dep@)),
{
    let d = dashed_name(dep);
    append5(out, "    ", n, "->>", d.as_str(), ": Request generation component\n");
    append5(out, "    ", d.as_str(), "-->>", n, ": Component ready\n");
}

fn write_generator_flow(out: &mut String, n: &str, deps: &Vec<String>, dependents: &Vec<String>)
    ensures
        final(out)@ == generator_flow(old(out)@, n@, views(deps@), views(dependents@)),
{
    append3(out, "    Note over ", n, ": Configuration\n");
    if dependents.len() > 0 {
        let t = dashed_name(dependents[0].as_str());
        append5(out, "    ", t.as_str(), "->>", n, ": Provide generation config\n");
    }
    append5(out, "    ", n, "->>", n, ": Parse and validate config\n");
    if deps.len() > 0 {
        append3(out, "\n    Note over ", n, ": Generation process\n");
        write_component(out, n, deps[0].as_str());
        if deps.len() > 1 {
            write_component(out, n, deps[1].as_str());
        }
    }
    append3(out, "\n    Note over ", n, ": Final output\n");
    append5(out, "    ", n, "->>", n, ": Assemble final artifact\n");
    if dependents.len() > 0 {
        let t = dashed_name(dependents[0].as_str());
        append5(out, "    ", n, "-->>", t.as_str(), ": Return generated artifact\n");
    }
}

/// Flow of a crypto or encryption crate.
pub open spec fn crypto_flow(acc: Seq<char>, n: Seq<char>, dependents: Seq<Seq<char>>) -> Seq<char> {
    let has = dependents.len() > 0;
    let t = if has {
        dashed(dependents[0])
    } else {
        n
    };
    let a = acc + "    Note over "@ + n + ": Key operations\n"@ + "    "@ + n + "->>"@ + n
        + ": Generate keypair\n"@ + "    "@ + n + "->>"@ + n + ": Derive shared secret\n"@
        + "\n    Note over "@ + n + ": Encryption\n"@;
    let b = if has {
        a + "    "@ + t + "->>"@ + n + ": Request encryption\n"@
    } else {
        a
    };
    let c = b + "    "@ + n + "->>"@ + n + ": Encrypt data (ChaCha20Poly1305/AES-GCM)\n"@;
    let e = if has {
        c + "    "@ + n + "-->>"@ + t + ": Encrypted data\n"@
    } else {
        c
    };
    let f = e + "\n    Note over "@ + n + ": Decryption\n"@;
    let g = if has {
        f + "    "@ + t + "->>"@ + n + ": Request decryption\n"@
    } else {
        f
    };
    let h = g + "    "@ + n + "->>"@ + n + ": Decrypt data\n"@;
    let k = if has {
        h + "    "@ + n + "-->>"@ + t + ": Decrypted data\n"@
    } else {
        h
    };
    k + "\n    Note over "@ + n + ": Memory safety\n"@ + "    "@ + n + "->>"@ + n
        + ": Zeroize sensitive data\n"@
}

fn write_crypto_flow(out: &mut String, n: &str, dependents: &Vec<String>)
    ensures
        final(out)@ == crypto_flow(old(out)@, n@, views(dependents@)),
{
    let has = dependents.len() > 0;
    let t = if has {
        dashed_name(dependents[0].as_str())
    } else {
        String::from_str(n)
    };
    append3(out, "    Note over ", n, ": Key operations\n");
    append5(out, "    ", n, "->>", n, ": Generate keypair\n");
    append5(out, "    ", n, "->>", n, ": Derive shared secret\n");
    append3(out, "\n    Note over ", n, ": Encryption\n");
    if has {
        append5(out, "    ", t.as_str(), "->>", n, ": Request encryption\n");
    }
    append5(out, "    ", n, "->>", n, ": Encrypt data (ChaCha20Poly1305/AES-GCM)\n");
    if has {
        append5(out, "    ", n, "-->>", t.as_str(), ": Encrypted data\n");
    }
    append3(out, "\n    Note over ", n, ": Decryption\n");
    if has {
        append5(out, "    ", t.as_str(), "->>", n, ": Request decryption\n");
    }
    append5(out, "    ", n, "->>", n, ": Decrypt data\n");
    if has {
        append5(out, "    ", n, "-->>", t.as_str(), ": Decrypted data\n");
    }
    append3(out, "\n    Note over ", n, ": Memory safety\n");
    append5(out, "    ", n, "->>", n, ": Zeroize sensitive data\n");
}

/// Flow of an operator or client crate.
pub open spec fn client_flow(acc: Seq<char>, n: Seq<char>, deps: Seq<Seq<char>>) -> Seq<char> {
    let a = acc + "    Note over "@ + n + ": User interaction\n"@ + "    "@ + "User"@ + "->>"@ + n
        + ": User action/input\n"@;
    let b = if deps.len() > 0 {
        let d = dashed(deps[0]);
        a + "\n    Note over "@ + n + ": API communication\n"@ + "    "@ + n + "->>"@ + d
            + ": API request\n"@ + "    "@ + d + "-->>"@ + n + ": API response\n"@
    } else {
        a
    };
    let g = dashed(
        if deps.len() > 0 {
            deps[0]
        } else {
            n
        },
    );
    b + "\n    Note over "@ + n + ": Real-time updates\n"@ + "    "@ + n + "->>"@ + g
        + ": WebSocket connect\n"@ + "    "@ + g + "-->>"@ + n + ": Live data stream\n"@
        + "\n    Note over "@ + n + ": UI update\n"@ + "    "@ + n + "->>"@ + "User"@
        + ": Update UI state\n"@
}

fn write_client_flow(out: &mut String, n: &str, deps: &Vec<String>)
    ensures
        final(out)@ == client_flow(old(out)@, n@, views(deps@)),
{
    append3(out, "    Note over ", n, ": User interaction\n");
    append5(out, "    ", "User", "->>", n, ": User action/input\n");
    if deps.len() > 0 {
        let d = dashed_name(deps[0].as_str());
        append3(out, "\n    Note over ", n, ": API communication\n");
        append5(out, "    ", n, "->>", d.as_str(), ": API request\n");
        append5(out, "    ", d.as_str(), "-->>", n, ": API response\n");
    }
    let g = if deps.len() > 0 {
        dashed_name(deps[0].as_str())
    } else {
        dashed_name(n)
    };
    append3(out, "\n    Note over ", n, ": Real-time updates\n");
    append5(out, "    ", n, "->>", g.as_str(), ": WebSocket connect\n");
    append5(out, "    ", g.as_str(), "-->>", n, ": Live data stream\n");
    append3(out, "\n    Note over ", n, ": UI update\n");
    append5(out, "    ", n, "->>", "User", ": Update UI state\n");
}

/// Flow of any other crate.
pub open spec fn generic_flow(
    acc: Seq<char>,
    n: Seq<char>,
    deps: Seq<Seq<char>>,
    dependents: Seq<Seq<char>>,
) -> Seq<char> {
    let a = if deps.len() > 0 {
        let d = dashed(deps[0]);
        acc + "    Note over "@ + n + ", "@ + d + ": Dependency initialization\n"@ + "    "@ + n
            + "->>"@ + d + ": Request/Invoke\n"@ + "    "@ + d + "-->>"@ + n
            + ": Response/Return\n"@
    } else {
        acc
    };
    let b = if dependents.len() > 0 {
        let t = dashed(dependents[0]);
        a + "\n    Note over "@ + t + ", "@ + n + ": Client interaction\n"@ + "    "@ + t + "->>"@
            + n + ": API call/Request\n"@ + "    "@ + n + "-->>"@ + t + ": Response\n"@
    } else {
        a
    };
    if deps.len() == 0 && dependents.len() == 0 {
        b + "    Note over "@ + n + ": Internal operations\n"@ + "    "@ + n + "->>"@ + n
            + ": Process data\n"@
    } else {
        b
    }
}

fn write_generic_flow(out: &mut String, n: &str, deps: &Vec<String>, dependents: &Vec<String>)
    ensures
        final(out)@ == generic_flow(old(out)@, n@, views(deps@), views(dependents@)),
{
    if deps.len() > 0 {
        let d = dashed_name(deps[0].as_str());
        append5(out, "    Note over ", n, ", ", d.as_str(), ": Dependency initialization\n");
        append5(out, "    ", n, "->>", d.as_str(), ": Request/Invoke\n");
        append5(out, "    ", d.as_str(), "-->>", n, ": Response/Return\n");
    }
    if dependents.len() > 0 {
        let t = dashed_name(dependents[0].as_str());
        append5(out, "\n    Note over ", t.as_str(), ", ", n, ": Client interaction\n");
        append5(out, "    ", t.as_str(), "->>", n, ": API call/Request\n");
        append5(out, "    ", n, "-->>", t.as_str(), ": Response\n");
    }
    if deps.len() == 0 && dependents.len() == 0 {
        append3(out, "    Note over ", n, ": Internal operations\n");
        append5(out, "    ", n, "->>", n, ": Process data\n");
    }
}

/// Whether the identifier form of the crate name holds one of two words.
pub open spec fn mentions(nn: Seq<char>, a: Seq<char>, b: Seq<char>) -> bool {
    contains_seq(nn, a) || contains_seq(nn, b)
}

/// The sequence-diagram steps for a crate, chosen by the words in its
/// identifier form: agent/beacon, core/server, storage/db, forge/generator,
/// crypto/encryption, operator/client, in that order, else a generic flow.
pub open spec fn sequence_flow(
    n: Seq<char>,
    deps: Seq<Seq<char>>,
    dependents: Seq<Seq<char>>,
) -> Seq<char> {
    let ps = participants(n, deps, dependents);
    let nn = underscored(n);
    let p1 = second_or(ps, n);
    let e = Seq::<char>::empty();
    if ps.len() == 0 {
        "    Note over Self: No external dependencies\n"@
    } else if mentions(nn, "agent"@, "beacon"@) {
        agent_flow(e, n, deps, p1)
    } else if mentions(nn, "core"@, "server"@) {
        server_flow(e, n, deps, dependents)
    } else if mentions(nn, "storage"@, "db"@) {
        storage_flow(e, n, deps, p1)
    } else if mentions(nn, "forge"@, "generator"@) {
        generator_flow(e, n, deps, dependents)
    } else if mentions(nn, "crypto"@, "encryption"@) {
        crypto_flow(e, n, dependents)
    } else if mentions(nn, "operator"@, "client"@) {
        client_flow(e, n, deps)
    } else {
        generic_flow(e, n, deps, dependents)
    }
}

/// Whether `nn` holds `a` or `b`.
fn mentions_either(nn: &[char], a: &str, b: &str) -> (r: bool)
    ensures
        r == mentions(nn@, a@, b@),
{
    let ac = chars_of(a);
    let bc = chars_of(b);
    has_piece(nn, &ac) || has_piece(nn, &bc)
}

/// The steps of a crate's sequence diagram.
pub fn generate_sequence_flow(crate_info: &CrateInfo) -> (r: String)
    ensures
        r@ == sequence_flow(
            crate_info.name@,
            views(crate_info.dependencies@),
            views(crate_info.dependents@),
        ),
{
    let mut flow = String::new();
    let participants = generate_sequence_participants(crate_info);
    if participants.len() == 0 {
        return String::from_str("    Note over Self: No external dependencies\n");
    }
    let n = crate_info.name.as_str();
    let normalized_name = normalize_crate_name(n);
    let nn = chars_of(normalized_name.as_str());
    let p1 = if participants.len() > 1 {
        participants[1].clone()
    } else {
        crate_info.name.clone()
    };
    let deps = &crate_info.dependencies;
    let dependents = &crate_info.dependents;
    if mentions_either(&nn, "agent", "beacon") {
        write_agent_flow(&mut flow, n, deps, p1.as_str());
    } else if mentions_either(&nn, "core", "server") {
        write_server_flow(&mut flow, n, deps, dependents);
    } else if mentions_either(&nn, "storage", "db") {
        write_storage_flow(&mut flow, n, deps, p1.as_str());
    } else if mentions_either(&nn, "forge", "generator") {
        write_generator_flow(&mut flow, n, deps, dependents);
    } else if mentions_either(&nn, "crypto", "encryption") {
        write_crypto_flow(&mut flow, n, dependents);
    } else if mentions_either(&nn, "operator", "client") {
        write_client_flow(&mut flow, n, deps);
    } else {
        write_generic_flow(&mut flow, n, deps, dependents);
    }
    flow
}

/// The crate type shown for a crate directory: `binary` when `src/main.rs`
/// exists, else `library` when `src/lib.rs` exists, else `unknown`.
pub open spec fn crate_kind(has_main: bool, has_lib: bool) -> Seq<char> {
    if has_main {
        "binary"@
    } else if has_lib {
        "library"@
    } else {
        "unknown"@
    }
}

fn crate_kind_of(has_main: bool, has_lib: bool) -> (r: String)
    ensures
        r@ == crate_kind(has_main, has_lib),
{
    if has_main {
        String::from_str("binary")
    } else if has_lib {
        String::from_str("library")
    } else {
        String::from_str("unknown")
    }
}

/// The YAML block of a crate page.
pub open spec fn page_yaml(
    acc: Seq<char>,
    name: Seq<char>,
    rel: Seq<char>,
    version: Seq<char>,
    description: Seq<char>,
    kind: Seq<char>,
    deps_list: Seq<Seq<char>>,
    ws: Seq<Seq<char>>,
    dependents: Seq<Seq<char>>,
) -> Seq<char> {
    let a = acc + "# "@ + name + "\n\n"@ + description + "\n\n"@ + "---\n```yaml\ncrate:\n"@
        + "  name: "@ + name + "\n"@ + "  path: "@ + rel + "\n"@ + "  version: "@ + version + "\n"@
        + "  type: "@ + kind + "\n"@ + "  description: "@ + description + "\n"@;
    let b = if deps_list.len() > 0 {
        item_lines(a + "\ndependencies:\n"@, deps_list, "  - "@, Form::Same, "\n"@)
    } else {
        a
    };
    let c = if ws.len() > 0 {
        item_lines(b + "\nworkspace_dependencies:\n"@, ws, "  - "@, Form::Dashed, "\n"@)
    } else {
        b
    };
    let e = if dependents.len() > 0 {
        item_lines(c + "\ndependents:\n"@, dependents, "  - "@, Form::Dashed, "\n"@)
    } else {
        c
    };
    e + "```\n---\n\n"@
}

fn write_page_yaml(
    out: &mut String,
    name: &str,
    rel: &str,
    version: &str,
    description: &str,
    kind: &str,
    deps_list: &Vec<String>,
    ws: &Vec<String>,
    dependents: &Vec<String>,
)
    ensures
        final(out)@ == page_yaml(
            old(out)@,
            name@,
            rel@,
            version@,
            description@,
            kind@,
            views(deps_list@),
            views(ws@),
            views(dependents@),
        ),
{
    append5(out, "# ", name, "\n\n", description, "\n\n");
    out.append("---\n```yaml\ncrate:\n");
    append3(out, "  name: ", name, "\n");
    append3(out, "  path: ", rel, "\n");
    append3(out, "  version: ", version, "\n");
    append3(out, "  type: ", kind, "\n");
    append3(out, "  description: ", description, "\n");
    if deps_list.len() > 0 {
        out.append("\ndependencies:\n");
        append_item_lines(out, deps_list, "  - ", Form::Same, "\n");
    }
    if ws.len() > 0 {
        out.append("\nworkspace_dependencies:\n");
        append_item_lines(out, ws, "  - ", Form::Dashed, "\n");
    }
    if dependents.len() > 0 {
        out.append("\ndependents:\n");
        append_item_lines(out, dependents, "  - ", Form::Dashed, "\n");
    }
    out.append("```\n---\n\n");
}

/// The flowchart of a crate page.
pub open spec fn page_flowchart(
    acc: Seq<char>,
    name: Seq<char>,
    nn: Seq<char>,
    module_names: Seq<Seq<char>>,
    ws: Seq<Seq<char>>,
    dependents: Seq<Seq<char>>,
) -> Seq<char> {
    let a = acc + "## Flowchart Diagram\n\n```mermaid\nflowchart TD\n"@ + "    subgraph "@ + nn + "[\""@
        + name + "\"]\n"@;
    let b = pair_lines(
        a,
        module_names,
        "        "@ + nn + "__"@,
        Form::Underscored,
        "[\""@,
        Form::Same,
        "\"]\n"@,
    ) + "    end\n\n"@;
    let c = if ws.len() > 0 {
        let c1 = pair_lines(
            b + "    subgraph dependencies[\"Dependencies\"]\n"@,
            ws,
            "        "@,
            Form::Same,
            "[\""@,
            Form::Dashed,
            "\"]\n"@,
        ) + "    end\n\n"@;
        item_lines(c1, ws, "    "@ + nn + " --> "@, Form::Same, "\n"@)
    } else {
        b
    };
    let e = if dependents.len() > 0 {
        let e1 = pair_lines(
            c + "\n    subgraph dependents[\"Dependents\"]\n"@,
            dependents,
            "        "@,
            Form::Same,
            "[\""@,
            Form::Dashed,
            "\"]\n"@,
        ) + "    end\n\n"@;
        item_lines(e1, dependents, "    "@, Form::Same, " --> "@ + nn + "\n"@)
    } else {
        c
    };
    e + "```\n\n"@
}

fn write_page_flowchart(
    out: &mut String,
    name: &str,
    nn: &str,
    module_names: &Vec<String>,
    ws: &Vec<String>,
    dependents: &Vec<String>,
)
    ensures
        final(out)@ == page_flowchart(
            old(out)@,
            name@,
            nn@,
            views(module_names@),
            views(ws@),
            views(dependents@),
        ),
{
    out.append("## Flowchart Diagram\n\n```mermaid\nflowchart TD\n");
    append5(out, "    subgraph ", nn, "[\"", name, "\"]\n");
    let mut pre = String::from_str("        ");
    append2(&mut pre, nn, "__");
    append_pair_lines(out, module_names, pre.as_str(), Form::Underscored, "[\"", Form::Same, "\"]\n");
    out.append("    end\n\n");
    if ws.len() > 0 {
        out.append("    subgraph dependencies[\"Dependencies\"]\n");
        append_pair_lines(out, ws, "        ", Form::Same, "[\"", Form::Dashed, "\"]\n");
        out.append("    end\n\n");
        let mut arrow = String::from_str("    ");
        append2(&mut arrow, nn, " --> ");
        append_item_lines(out, ws, arrow.as_str(), Form::Same, "\n");
    }
    if dependents.len() > 0 {
        out.append("\n    subgraph dependents[\"Dependents\"]\n");
        append_pair_lines(out, dependents, "        ", Form::Same, "[\"", Form::Dashed, "\"]\n");
        out.append("    end\n\n");
        let mut tail = String::from_str(" --> ");
        append2(&mut tail, nn, "\n");
        append_item_lines(out, dependents, "    ", Form::Same, tail.as_str());
    }
    out.append("```\n\n");
}

/// The sequence diagram of a crate page.
pub open spec fn page_sequence(
    acc: Seq<char>,
    name: Seq<char>,
    ws: Seq<Seq<char>>,
    dependents: Seq<Seq<char>>,
) -> Seq<char> {
    numbered_lines(
        acc + "## Sequence Diagram\n\n```mermaid\nsequenceDiagram\n"@,
        participants(name, ws, dependents),
        "    participant P"@,
        " as "@,
        "\n"@,
    ) + "\n"@ + sequence_flow(name, ws, dependents) + "```\n\n"@
}

fn write_page_sequence(out: &mut String, info: &CrateInfo)
    ensures
        final(out)@ == page_sequence(
            old(out)@,
            info.name@,
            views(info.dependencies@),
            views(info.dependents@),
        ),
{
    out.append("## Sequence Diagram\n\n```mermaid\nsequenceDiagram\n");
    let ps = generate_sequence_participants(info);
    append_numbered_lines(out, &ps, "    participant P", " as ", "\n");
    out.append("\n");
    let flow = generate_sequence_flow(info);
    out.append(flow.as_str());
    out.append("```\n\n");
}

/// One line per module of the summary: its name and, when it declares items,
/// how many.
pub open spec fn component_summary(acc: Seq<char>, modules: Seq<ModuleView>) -> Seq<char>
    decreases modules.len(),
{
    if modules.len() == 0 {
        acc
    } else {
        let a = component_summary(acc, modules.drop_last()) + "- **"@ + modules.last().name;
        let b = if modules.last().items.len() > 0 {
            a + ": Contains "@ + decimal(modules.last().items.len()) + " items"@
        } else {
            a
        };
        b + "\n"@
    }
}

/// The sentence that places a crate in the dependency graph.
pub open spec fn dependency_role(acc: Seq<char>, n_deps: nat, n_dependents: nat) -> Seq<char> {
    if n_deps == 0 && n_dependents == 0 {
        acc + "Standalone crate with no workspace dependencies or dependents.\n"@
    } else if n_deps == 0 {
        acc + "Leaf node - depended upon by "@ + decimal(n_dependents)
            + " other crates but has no workspace dependencies.\n"@
    } else if n_dependents == 0 {
        acc + "Leaf node - depends on "@ + decimal(n_deps)
            + " other workspace crates but nothing depends on it.\n"@
    } else {
        acc + "Intermediate node - depends on "@ + decimal(n_deps)
            + " crates and is depended upon by "@ + decimal(n_dependents) + " crates.\n"@
    }
}

/// The summary of a crate page.
pub open spec fn page_summary(
    acc: Seq<char>,
    description: Seq<char>,
    modules: Seq<ModuleView>,
    n_deps: nat,
    n_dependents: nat,
) -> Seq<char> {
    let a = acc + "## Summary and Key Insights\n\n### Purpose\n"@ + description + "\n\n"@
        + "### Key Components\n"@;
    let b = if modules.len() > 0 {
        component_summary(a, modules)
    } else {
        a + "- No module structure detected\n"@
    };
    dependency_role(b + "\n"@ + "### Dependency Role\n"@, n_deps, n_dependents)
}

fn write_component_summary(out: &mut String, modules: &Vec<ModuleInfo>)
    ensures
        final(out)@ == component_summary(old(out)@, module_views(modules@)),
{
    let ghost mv = module_views(modules@);
    let mut i: usize = 0;
    while i < modules.len()
        invariant
            i <= modules.len(),
            mv == module_views(modules@),
            out@ == component_summary(old(out)@, mv.take(i as int)),
        decreases modules.len() - i,
    {
        assert(mv.take(i + 1).drop_last() =~= mv.take(i as int));
        assert(mv[i as int] == modules@[i as int]@);
        let m = &modules[i];
        append2(out, "- **", m.name.as_str());
        if m.items.len() > 0 {
            out.append(": Contains ");
            append_decimal(out, m.items.len());
            out.append(" items");
        }
        out.append("\n");
        i = i + 1;
    }
    assert(mv.take(i as int) =~= mv);
}

fn write_dependency_role(out: &mut String, n_deps: usize, n_dependents: usize)
    ensures
        final(out)@ == dependency_role(old(out)@, n_deps as nat, n_dependents as nat),
{
    if n_deps == 0 && n_dependents == 0 {
        out.append("Standalone crate with no workspace dependencies or dependents.\n");
    } else if n_deps == 0 {
        out.append("Leaf node - depended upon by ");
        append_decimal(out, n_dependents);
        out.append(" other crates but has no workspace dependencies.\n");
    } else if n_dependents == 0 {
        out.append("Leaf node - depends on ");
        append_decimal(out, n_deps);
        out.append(" other workspace crates but nothing depends on it.\n");
    } else {
        out.append("Intermediate node - depends on ");
        append_decimal(out, n_deps);
        out.append(" crates and is depended upon by ");
        append_decimal(out, n_dependents);
        out.append(" crates.\n");
    }
}

fn write_page_summary(
    out: &mut String,
    description: &str,
    modules: &Vec<ModuleInfo>,
    n_deps: usize,
    n_dependents: usize,
)
    ensures
        final(out)@ == page_summary(
            old(out)@,
            description@,
            module_views(modules@),
            n_deps as nat,
            n_dependents as nat,
        ),
{
    out.append("## Summary and Key Insights\n\n### Purpose\n");
    append2(out, description, "\n\n");
    out.append("### Key Components\n");
    if modules.len() > 0 {
        write_component_summary(out, modules);
    } else {
        out.append("- No module structure detected\n");
    }
    out.append("\n");
    out.append("### Dependency Role\n");
    write_dependency_role(out, n_deps, n_dependents);
}

/// The names of the modules, in order.
pub open spec fn module_names(ms: Seq<ModuleView>) -> Seq<Seq<char>> {
    ms.map_values(|m: ModuleView| m.name)
}

fn names_of_modules(modules: &Vec<ModuleInfo>) -> (r: Vec<String>)
    ensures
        views(r@) == module_names(module_views(modules@)),
{
    let mut r: Vec<String> = Vec::new();
    let mut i: usize = 0;
    while i < modules.len()
        invariant
            i <= modules.len(),
            r@.len() == i,
            forall|j: int| 0 <= j < i ==> #[trigger] r@[j]@ == modules@[j].name@,
        decreases modules.len() - i,
    {
        r.push(modules[i].name.clone());
        i = i + 1;
    }
    assert(views(r@) =~= module_names(module_views(modules@)));
    r
}

/// The version, description and dependency list taken from a manifest text,
/// or `0.0.0`, `Unknown` and nothing when there is no manifest.
pub open spec fn manifest_fields(cargo_toml: Option<Seq<char>>) -> (Seq<char>, Seq<char>) {
    match cargo_toml {
        Some(c) => (manifest_version(c), manifest_description(c)),
        None => ("0.0.0"@, "Unknown"@),
    }
}

/// The Markdown page of one crate, given its name, its directory, the text of
/// its `Cargo.toml` if it has one, which of `src/main.rs` and `src/lib.rs`
/// exist, its modules and the workspace dependency map.
pub open spec fn crate_page(
    name: Seq<char>,
    path: Seq<char>,
    cargo_toml: Option<Seq<char>>,
    has_main: bool,
    has_lib: bool,
    modules: Seq<ModuleView>,
    map: Seq<(Seq<char>, Seq<Seq<char>>)>,
) -> Seq<char> {
    let nn = underscored(name);
    let fields = manifest_fields(cargo_toml);
    let ws = map_get(map, nn);
    let dependents = dependents_in(map, nn);
    let a = page_yaml(
        Seq::empty(),
        name,
        dir_name_text(path),
        fields.0,
        fields.1,
        crate_kind(has_main, has_lib),
        Seq::empty(),
        ws,
        dependents,
    );
    let b = page_flowchart(a, name, nn, module_names(modules), ws, dependents);
    let c = page_sequence(b, name, ws, dependents);
    page_summary(c, fields.1, modules, ws.len(), dependents.len())
}

/// The Markdown page of one crate.
pub fn generate_crate_markdown(
    crate_name: &str,
    crate_path: &str,
    cargo_toml: &Option<String>,
    has_main: bool,
    has_lib: bool,
    modules: Vec<ModuleInfo>,
    dependency_map: &DependencyMap,
) -> (r: String)
    ensures
        r@ == crate_page(
            crate_name@,
            crate_path@,
            match cargo_toml {
                Some(c) => Some(c@),
                None => None,
            },
            has_main,
            has_lib,
            module_views(modules@),
            dependency_map@,
        ),
{
    let normalized_name = normalize_crate_name(crate_name);
    let (version, description, deps_list) = match cargo_toml {
        Some(c) => parse_cargo_toml(c.as_str()),
        None => (String::from_str("0.0.0"), String::from_str("Unknown"), Vec::new()),
    };
    assert(views(deps_list@) =~= Seq::<Seq<char>>::empty());
    let crate_type = crate_kind_of(has_main, has_lib);
    let workspace_deps = dependency_map.get_or_empty(&normalized_name);
    let dependents = dependency_map.dependents_of(&normalized_name);
    let rel = dir_name_of(crate_path);
    let module_list = names_of_modules(&modules);
    let info = CrateInfo {
        name: String::from_str(crate_name),
        version,
        description,
        crate_type,
        dependencies: copy_strings(&workspace_deps),
        dependents,
        modules,
    };
    let mut content = String::new();
    write_page_yaml(
        &mut content,
        crate_name,
        rel.as_str(),
        info.version.as_str(),
        info.description.as_str(),
        info.crate_type.as_str(),
        &deps_list,
        &workspace_deps,
        &info.dependents,
    );
    write_page_flowchart(
        &mut content,
        crate_name,
        normalized_name.as_str(),
        &module_list,
        &workspace_deps,
        &info.dependents,
    );
    write_page_sequence(&mut content, &info);
    write_page_summary(
        &mut content,
        info.description.as_str(),
        &info.modules,
        workspace_deps.len(),
        info.dependents.len(),
    );
    content
}

/// One YAML entry per workspace member: name, path below the project and
/// crate type (`binary` when `src/main.rs` exists, else `library`).
pub open spec fn member_entries(acc: Seq<char>, members: Seq<WorkspaceMember>, project: Seq<char>) -> Seq<
    char,
>
    decreases members.len(),
{
    if members.len() == 0 {
        acc
    } else {
        let m = members.last();
        member_entries(acc, members.drop_last(), project) + "  - name: "@ + m.name@ + "\n"@
            + "    path: "@ + relative_path_text(m.path@, project) + "\n"@ + "    type: "@ + (if m.has_src_main {
            "binary"@
        } else {
            "library"@
        }) + "\n"@
    }
}

fn write_member_entries(out: &mut String, members: &Vec<WorkspaceMember>, project: &str)
    ensures
        final(out)@ == member_entries(old(out)@, members@, project@),
{
    let mut i: usize = 0;
    while i < members.len()
        invariant
            i <= members.len(),
            out@ == member_entries(old(out)@, members@.take(i as int), project@),
        decreases members.len() - i,
    {
        assert(members@.take(i + 1).drop_last() =~= members@.take(i as int));
        let m = &members[i];
        let rel = relative_display(m.path.as_str(), project);
        append3(out, "  - name: ", m.name.as_str(), "\n");
        append3(out, "    path: ", rel.as_str(), "\n");
        append3(out, "    type: ", if m.has_src_main { "binary" } else { "library" }, "\n");
        i = i + 1;
    }
    assert(members@.take(i as int) =~= members@);
}

/// The `C{i}->>C{i+1}` steps for `i` below `k`.
pub open spec fn chain_lines(acc: Seq<char>, k: nat) -> Seq<char>
    decreases k,
{
    if k == 0 {
        acc
    } else {
        chain_lines(acc, (k - 1) as nat) + "    C"@ + decimal((k - 1) as nat) + "->>C"@ + decimal(k)
            + ": Request/Response\n"@
    }
}

/// The architecture page of a workspace.
pub open spec fn architecture_page(
    members: Seq<WorkspaceMember>,
    project: Seq<char>,
    map: Seq<(Seq<char>, Seq<Seq<char>>)>,
    all_crates: Seq<Seq<char>>,
) -> Seq<char> {
    let a = member_entries(
        "# Architecture Diagrams\n\nAI-optimized documentation for workspace dependency visualization.\n\n---\n```yaml\ncrates:\n"@,
        members,
        project,
    ) + "\ndependencies:\n"@;
    let b = edge_lines(a, map, "  - "@, " -> "@, "\n"@)
        + "```\n---\n\n## Flowchart Diagram\n\n```mermaid\nflowchart TD\n    %% Workspace structure\n"@;
    let c = pair_lines(b, all_crates, "    "@, Form::Same, "[\""@, Form::Dashed, "\"]\n"@)
        + "\n    %% Dependencies\n"@;
    let e = edge_lines(c, map, "    "@, " --> "@, "\n"@)
        + "```\n\n## Sequence Diagram\n\n```mermaid\nsequenceDiagram\n    %% Runtime flow between components\n    participant User\n"@;
    let shown = if all_crates.len() > 5 {
        all_crates.take(5)
    } else {
        all_crates
    };
    let f = numbered_lines(
        e,
        shown.map_values(|c: Seq<char>| dashed(c)),
        "    participant C"@,
        " as "@,
        "\n"@,
    );
    let g = if all_crates.len() > 0 {
        chain_lines(
            f + "    User->>C0: Initialize\n"@,
            if all_crates.len() < 4 {
                all_crates.len()
            } else {
                4
            },
        )
    } else {
        f
    };
    let h = g
        + "```\n\n## Module Relationships\n\nDetailed module relationships are documented in individual crate files in the `output-md/` directory.\n\n"@;
    pair_lines(h, member_names(members), "- ["@, Form::Same, "]("@, Form::Underscored, ".md)\n"@)
        + "\n"@ + "## Summary and Key Insights\n\n"@ + "This workspace contains "@ + decimal(
        members.len(),
    )
        + " crates.\n\n### Architecture\n- Modular workspace with clear separation of concerns\n- Dependency graph shows inter-crate relationships\n- Each crate has dedicated documentation in output-md/\n\n### AI-Readability Features\n- Fully qualified node IDs (e.g., `crate_name`) to avoid collisions\n- Explicit dependency pairs in YAML metadata for programmatic parsing\n- Structured crate metadata with types and paths\n- Mermaid comments explaining component purposes\n"@
}

/// The display forms of at most the first five names.
fn first_five_dashed(names: &Vec<String>) -> (r: Vec<String>)
    ensures
        views(r@) == (if names@.len() > 5 {
            views(names@).take(5)
        } else {
            views(names@)
        }).map_values(|c: Seq<char>| dashed(c)),
{
    let mut r: Vec<String> = Vec::new();
    let mut i: usize = 0;
    while i < names.len() && i < 5
        invariant
            i <= names.len(),
            i <= 5,
            r@.len() == i,
            forall|j: int| 0 <= j < i ==> #[trigger] r@[j]@ == dashed(names@[j]@),
        decreases names.len() - i,
    {
        r.push(dashed_name(names[i].as_str()));
        i = i + 1;
    }
    assert(views(r@) =~= (if names@.len() > 5 {
        views(names@).take(5)
    } else {
        views(names@)
    }).map_values(|c: Seq<char>| dashed(c)));
    r
}

/// The architecture page of a workspace: its members, the dependency map and
/// the identifier forms of all crates.
pub fn generate_architecture_diagrams(
    project_path: &str,
    workspace_members: &Vec<WorkspaceMember>,
    dependency_map: &DependencyMap,
    all_crates: &Vec<String>,
) -> (r: String)
    ensures
        r@ == architecture_page(
            workspace_members@,
            project_path@,
            dependency_map@,
            views(all_crates@),
        ),
{
    let mut content = String::from_str(
        "# Architecture Diagrams\n\nAI-optimized documentation for workspace dependency visualization.\n\n---\n```yaml\ncrates:\n",
    );
    write_member_entries(&mut content, workspace_members, project_path);
    content.append("\ndependencies:\n");
    append_edge_lines(&mut content, dependency_map, "  - ", " -> ", "\n");
    content.append(
        "```\n---\n\n## Flowchart Diagram\n\n```mermaid\nflowchart TD\n    %% Workspace structure\n",
    );
    append_pair_lines(&mut content, all_crates, "    ", Form::Same, "[\"", Form::Dashed, "\"]\n");
    content.append("\n    %% Dependencies\n");
    append_edge_lines(&mut content, dependency_map, "    ", " --> ", "\n");
    content.append(
        "```\n\n## Sequence Diagram\n\n```mermaid\nsequenceDiagram\n    %% Runtime flow between components\n    participant User\n",
    );
    let shown = first_five_dashed(all_crates);
    append_numbered_lines(&mut content, &shown, "    participant C", " as ", "\n");
    if all_crates.len() > 0 {
        content.append("    User->>C0: Initialize\n");
        let k: usize = if all_crates.len() < 4 {
            all_crates.len()
        } else {
            4
        };
        let ghost start = content@;
        let mut i: usize = 0;
        while i < k
            invariant
                i <= k <= 4,
                content@ == chain_lines(start, i as nat),
            decreases k - i,
        {
            content.append("    C");
            append_decimal(&mut content, i);
            content.append("->>C");
            append_decimal(&mut content, i + 1);
            content.append(": Request/Response\n");
            i = i + 1;
        }
    }
    content.append(
        "```\n\n## Module Relationships\n\nDetailed module relationships are documented in individual crate files in the `output-md/` directory.\n\n",
    );
    let names = names_of_members(workspace_members);
    append_pair_lines(&mut content, &names, "- [", Form::Same, "](", Form::Underscored, ".md)\n");
    content.append("\n");
    content.append("## Summary and Key Insights\n\n");
    content.append("This workspace contains ");
    append_decimal(&mut content, workspace_members.len());
    content.append(
        " crates.\n\n### Architecture\n- Modular workspace with clear separation of concerns\n- Dependency graph shows inter-crate relationships\n- Each crate has dedicated documentation in output-md/\n\n### AI-Readability Features\n- Fully qualified node IDs (e.g., `crate_name`) to avoid collisions\n- Explicit dependency pairs in YAML metadata for programmatic parsing\n- Structured crate metadata with types and paths\n- Mermaid comments explaining component purposes\n",
    );
    content
}

/// The README of a workspace.
pub open spec fn readme_page(members: Seq<WorkspaceMember>, project: Seq<char>) -> Seq<char> {
    member_paths(
        "# Workspace Documentation\n\nThis directory contains AI-optimized documentation for the workspace.\n\n## Generated Files\n\n- `ARCHITECTURE_DIAGRAMS.md`: Complete architecture documentation with Mermaid diagrams\n- `deps.svg`: Interactive SVG dependency visualization (generated by cargo-arc)\n- `output-md/`: Individual crate documentation\n\n## Workspace Members\n\n"@,
        members,
        project,
    )
        + "\n## Regenerating Documentation\n\nRun the generation script:\n- Bash: `./generate-docs.sh`\n- PowerShell: `./generate-docs.ps1`\n"@
}

/// The README of a workspace: its members and how to regenerate the pages.
pub fn generate_readme(project_path: &str, workspace_members: &Vec<WorkspaceMember>) -> (r: String)
    ensures
        r@ == readme_page(workspace_members@, project_path@),
{
    let mut content = String::from_str(
        "# Workspace Documentation\n\nThis directory contains AI-optimized documentation for the workspace.\n\n## Generated Files\n\n- `ARCHITECTURE_DIAGRAMS.md`: Complete architecture documentation with Mermaid diagrams\n- `deps.svg`: Interactive SVG dependency visualization (generated by cargo-arc)\n- `output-md/`: Individual crate documentation\n\n## Workspace Members\n\n",
    );
    write_member_paths(&mut content, workspace_members, project_path);
    content.append(
        "\n## Regenerating Documentation\n\nRun the generation script:\n- Bash: `./generate-docs.sh`\n- PowerShell: `./generate-docs.ps1`\n",
    );
    content
}

} // verus!
