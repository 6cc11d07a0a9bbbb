use generate_docs::docs;
use generate_docs::helper;
use generate_docs::text::{chars_of, decimal_string, is_text_less, trim_ws};
use generate_docs::workspace::{
    build_dependency_map, is_workspace, normalize_crate_name, normalized_names, DependencyMap,
    ResolveNode, WorkspaceMember,
};

fn strings(v: &[&str]) -> Vec<String> {
    v.iter().map(|s| s.to_string()).collect()
}

fn member(name: &str, path: &str, main: bool, lib: bool) -> WorkspaceMember {
    WorkspaceMember {
        name: name.to_string(),
        path: path.to_string(),
        has_src_main: main,
        has_src_lib: lib,
        has_root_lib: false,
    }
}

fn docs_info(name: &str, deps: &[&str], dependents: &[&str]) -> docs::CrateInfo {
    docs::CrateInfo {
        name: name.to_string(),
        version: "0.1.0".to_string(),
        description: String::new(),
        crate_type: "library".to_string(),
        dependencies: strings(deps),
        dependents: strings(dependents),
        modules: Vec::new(),
    }
}

fn helper_info(name: &str, deps: &[&str], dependents: &[&str]) -> helper::CrateInfo {
    helper::CrateInfo {
        name: name.to_string(),
        version: "0.1.0".to_string(),
        description: String::new(),
        crate_type: "library".to_string(),
        dependencies: strings(deps),
        dependents: strings(dependents),
        modules: Vec::new(),
    }
}

fn sample_map() -> DependencyMap {
    let packages = strings(&["core-lib", "app", "util"]);
    let resolve = Some(vec![
        ResolveNode {
            id: "path+file:///ws/app#0.1.0".to_string(),
            deps: strings(&["core_lib", "serde", "util"]),
        },
        ResolveNode {
            id: "path+file:///ws/util#0.1.0".to_string(),
            deps: strings(&["core_lib"]),
        },
        ResolveNode {
            id: "registry+https://github.com/rust-lang/crates.io-index#serde@1.0.0".to_string(),
            deps: Vec::new(),
        },
    ]);
    build_dependency_map(&packages, &resolve)
}

#[test]
fn normalize_replaces_dashes() {
    assert_eq!(normalize_crate_name("my-crate-x"), "my_crate_x");
    assert_eq!(normalize_crate_name("plain"), "plain");
    assert_eq!(normalize_crate_name(""), "");
}

#[test]
fn normalize_twice_is_normalize_once() {
    let once = normalize_crate_name("a-b_c-d");
    assert_eq!(normalize_crate_name(&once), once);
    assert!(!once.contains('-'));
}

#[test]
fn normalized_names_keep_order() {
    let names = strings(&["b-x", "a-y"]);
    assert_eq!(normalized_names(&names), strings(&["b_x", "a_y"]));
}

#[test]
fn workspace_detection() {
    assert!(!is_workspace(1, 1));
    assert!(is_workspace(2, 1));
    assert!(is_workspace(1, 3));
    assert!(!is_workspace(0, 0));
}

#[test]
fn dependency_map_lists_workspace_crates_only() {
    let map = sample_map();
    assert_eq!(map.len(), 3);
    assert_eq!(map.names(), strings(&["core_lib", "app", "util"]));
    assert_eq!(map.get_or_empty(&"app".to_string()), strings(&["core_lib", "util"]));
    assert_eq!(map.get_or_empty(&"util".to_string()), strings(&["core_lib"]));
    assert_eq!(map.get_or_empty(&"core_lib".to_string()), Vec::<String>::new());
    assert_eq!(map.get_or_empty(&"serde".to_string()), Vec::<String>::new());
}

#[test]
fn dependency_map_without_resolve_is_empty_lists() {
    let map = build_dependency_map(&strings(&["a", "b"]), &None);
    assert_eq!(map.names(), strings(&["a", "b"]));
    assert!(map.get_or_empty(&"a".to_string()).is_empty());
    assert!(map.get_or_empty(&"b".to_string()).is_empty());
}

#[test]
fn dependency_map_id_match_is_by_substring() {
    // "app" is part of the id of "app-extra", so both nodes feed "app".
    let packages = strings(&["app", "app-extra", "base"]);
    let resolve = Some(vec![
        ResolveNode { id: "path+file:///ws/app#0.1.0".to_string(), deps: strings(&["base"]) },
        ResolveNode {
            id: "path+file:///ws/app-extra#0.1.0".to_string(),
            deps: strings(&["app"]),
        },
    ]);
    let map = build_dependency_map(&packages, &resolve);
    assert_eq!(map.get_or_empty(&"app".to_string()), strings(&["base", "app"]));
    assert_eq!(map.get_or_empty(&"app_extra".to_string()), strings(&["app"]));
}

#[test]
fn dependency_map_same_identifier_keeps_first_place() {
    let packages = strings(&["a-b", "c", "a_b"]);
    let resolve = Some(vec![ResolveNode { id: "a_b".to_string(), deps: strings(&["c"]) }]);
    let map = build_dependency_map(&packages, &resolve);
    assert_eq!(map.names(), strings(&["a_b", "c"]));
    assert_eq!(map.get_or_empty(&"a_b".to_string()), strings(&["c"]));
}

#[test]
fn dependents_agree_with_dependencies() {
    let map = sample_map();
    assert_eq!(map.dependents_of(&"core_lib".to_string()), strings(&["app", "util"]));
    assert_eq!(map.dependents_of(&"util".to_string()), strings(&["app"]));
    assert!(map.dependents_of(&"app".to_string()).is_empty());
    for name in map.names() {
        for d in map.dependents_of(&name) {
            assert!(map.get_or_empty(&d).contains(&name));
        }
    }
}

#[test]
fn map_insert_replaces_in_place() {
    let mut map = DependencyMap::new();
    map.insert("x".to_string(), strings(&["a"]));
    map.insert("y".to_string(), strings(&["b"]));
    map.insert("x".to_string(), strings(&["c"]));
    assert_eq!(map.names(), strings(&["x", "y"]));
    assert_eq!(map.get_or_empty(&"x".to_string()), strings(&["c"]));
}

#[test]
fn readme_paths_are_relative_to_the_project() {
    let members = vec![member("a", "/ws/crates/a", false, true), member("b", "/other/b", false, true)];
    let page = docs::generate_readme("/ws", &members);
    assert!(page.contains("- **a**: `crates/a`\n- **b**: `/other/b`\n"));
    let page = helper::generate_readme("/ws", &members);
    assert!(page.contains("- **a**: `crates/a`\n- **b**: `/other/b`\n"));
}

#[test]
fn crate_page_shows_the_directory_name() {
    let page = docs::generate_crate_markdown("x", "/ws/crates/x-dir", &None, false, false, Vec::new(), &DependencyMap::new());
    assert!(page.contains("  path: x-dir\n  version: 0.0.0\n  type: unknown\n"));
    let page = helper::generate_crate_markdown("x", "/", &None, false, false, false, Vec::new(), &DependencyMap::new());
    assert!(page.contains("  path: /\n  version: 0.0.0\n  type: unknown\n  description: \n"));
}

#[test]
fn line_blocks_add_up() {
    let a = "pub fn a() {}\r\nfn b() {}\n";
    let b = "pub struct C;\n\npub enum D {}";
    let ab = format!("{}{}", a, b);
    assert_eq!(
        helper::count_public_items(&ab),
        helper::count_public_items(a) + helper::count_public_items(b)
    );
    assert_eq!(helper::count_public_items(&ab), 3);
    let mut joined = generate_docs::text::trimmed_lines_of(a);
    joined.extend(generate_docs::text::trimmed_lines_of(b));
    assert_eq!(generate_docs::text::trimmed_lines_of(&ab), joined);
    assert_eq!(joined.len(), 5);
}

#[test]
fn decimal_notation() {
    assert_eq!(decimal_string(0), "0");
    assert_eq!(decimal_string(7), "7");
    assert_eq!(decimal_string(10), "10");
    assert_eq!(decimal_string(120045), "120045");
    assert_eq!(decimal_string(usize::MAX), usize::MAX.to_string());
}

#[test]
fn trim_removes_unicode_white_space() {
    let t = trim_ws(&chars_of("\u{3000}\t x y \r\u{A0}"));
    assert_eq!(t.iter().collect::<String>(), "x y");
    let again = trim_ws(&t);
    assert_eq!(again, t);
}

#[test]
fn text_order_is_code_point_order() {
    let a = chars_of("README.md");
    let b = chars_of("a");
    let c = chars_of("ab");
    assert!(is_text_less(&a, &b));
    assert!(!is_text_less(&b, &a));
    assert!(is_text_less(&b, &c));
    assert!(!is_text_less(&c, &c));
}

#[test]
fn rust_file_declarations() {
    let src = "use std::fmt;;\r\n  pub fn run(x: u8) -> u8 {\n pub struct Config<T> {\npub enum Mode{\n\
               pub trait Show {\npub mod api;\npub mod inner {\nfn private() {}\n// pub fn hidden()\n";
    let m = docs::parse_rust_file(src, "lib");
    assert_eq!(m.name, "lib");
    assert_eq!(m.items, strings(&["fn run", "struct Config", "enum Mode", "trait Show"]));
    assert_eq!(m.submodules, strings(&["api", "inner"]));
    assert_eq!(m.uses, strings(&["std::fmt"]));
}

#[test]
fn rust_file_empty() {
    let m = docs::parse_rust_file("", "x");
    assert!(m.items.is_empty() && m.submodules.is_empty() && m.uses.is_empty());
}

#[test]
fn docs_manifest_fields() {
    let toml = "[package]\nname = \"demo\"\nversion = \"1.2.3\"\r\ndescription = \"A demo = tool\"\n";
    let (v, d, deps) = docs::parse_cargo_toml(toml);
    assert_eq!(v, "1.2.3");
    assert_eq!(d, "A demo");
    assert!(deps.is_empty());
    let (v, d, _) = docs::parse_cargo_toml("name = \"x\"\n");
    assert_eq!(v, "0.0.0");
    assert_eq!(d, "Unknown");
    let (v, _, _) = docs::parse_cargo_toml("version = \"1\"\n[dependencies]\nversion = \"2\"\n");
    assert_eq!(v, "2");
}

#[test]
fn docs_modules_order_and_filter() {
    let files = vec![
        docs::SourceFile { stem: "main".to_string(), is_rs: true, content: Some("pub fn a() {}\n".to_string()) },
        docs::SourceFile { stem: "util".to_string(), is_rs: true, content: Some("pub fn b() {}\n".to_string()) },
        docs::SourceFile { stem: "mod".to_string(), is_rs: true, content: Some(String::new()) },
        docs::SourceFile { stem: "lib".to_string(), is_rs: true, content: Some(String::new()) },
        docs::SourceFile { stem: "notes".to_string(), is_rs: false, content: Some("pub fn c() {}\n".to_string()) },
        docs::SourceFile { stem: "broken".to_string(), is_rs: true, content: None },
    ];
    let ms = docs::parse_crate_modules(&Some("pub fn a() {}\n".to_string()), &None, &files);
    let names: Vec<&str> = ms.iter().map(|m| m.name.as_str()).collect();
    assert_eq!(names, vec!["main", "util"]);
    assert_eq!(ms[1].items, strings(&["fn b"]));
}

#[test]
fn participants_are_capped_at_six() {
    let info = docs_info("top", &["a_1", "a_2", "a_3"], &["a_2", "b_1", "b_2", "b_3"]);
    let p = docs::generate_sequence_participants(&info);
    assert_eq!(p, strings(&["top", "a-1", "a-2", "a-3", "b-1", "b-2"]));
    let info = helper_info("top", &["a_1", "a_2", "a_3"], &["a_2", "b_1", "b_2", "b_3"]);
    assert_eq!(helper::build_participants(&info), p);
}

#[test]
fn participants_start_with_the_crate() {
    let info = docs_info("solo_x", &[], &[]);
    assert_eq!(docs::generate_sequence_participants(&info), strings(&["solo_x"]));
}

#[test]
fn docs_agent_flow() {
    let info = docs_info("my-agent", &["core_lib"], &[]);
    let expected = "    Note over my-agent: Initial check-in and key exchange\n\
                    \x20   my-agent->>core-lib: Generate cryptographic keys\n\
                    \x20   core-lib-->>my-agent: Key exchange complete\n\
                    \n    Note over my-agent: Encrypted communication\n\
                    \x20   my-agent->>core-lib: Send encrypted beacon/check-in\n\
                    \x20   core-lib-->>my-agent: Return tasks (encrypted)\n\
                    \n    loop Task execution\n\
                    \x20       my-agent->>my-agent: Decrypt and execute task\n\
                    \x20       my-agent->>my-agent: Encrypt result\n\
                    \x20       my-agent->>core-lib: Submit result\n\
                    \x20   end\n\
                    \n    Note over my-agent: Memory cleanup\n\
                    \x20   my-agent->>my-agent: Zeroize sensitive data\n";
    assert_eq!(docs::generate_sequence_flow(&info), expected);
}

#[test]
fn docs_generic_flow_without_neighbours() {
    let info = docs_info("solo", &[], &[]);
    assert_eq!(
        docs::generate_sequence_flow(&info),
        "    Note over solo: Internal operations\n    solo->>solo: Process data\n"
    );
}

#[test]
fn docs_client_flow_uses_crate_when_no_dependency() {
    let info = docs_info("web-client", &[], &[]);
    let f = docs::generate_sequence_flow(&info);
    assert!(f.contains("    web-client->>web-client: WebSocket connect\n"));
    assert!(f.ends_with("    web-client->>User: Update UI state\n"));
    assert!(f.starts_with("    Note over web-client: User interaction\n    User->>web-client: User action/input\n"));
}

#[test]
fn docs_generator_flow_requests_two_components() {
    let info = docs_info("code-generator", &["a_x", "b", "c"], &["tool"]);
    let f = docs::generate_sequence_flow(&info);
    assert_eq!(f.matches("Request generation component").count(), 2);
    assert!(f.contains("    code-generator->>a-x: Request generation component\n    a-x-->>code-generator: Component ready\n"));
    assert!(f.contains("    tool->>code-generator: Provide generation config\n"));
    assert!(f.ends_with("    code-generator-->>tool: Return generated artifact\n"));
}

#[test]
fn docs_crate_page() {
    let toml = "[package]\nname = \"solo\"\nversion = \"1.2.3\"\ndescription = \"A tool\"\n";
    let modules = vec![docs::parse_rust_file("pub fn run() {}\n", "main")];
    let page = docs::generate_crate_markdown(
        "solo",
        "/w/solo",
        &Some(toml.to_string()),
        true,
        false,
        modules,
        &DependencyMap::new(),
    );
    let expected = "# solo\n\nA tool\n\n---\n```yaml\ncrate:\n  name: solo\n  path: solo\n  version: 1.2.3\n  type: binary\n  description: A tool\n```\n---\n\n\
## Flowchart Diagram\n\n```mermaid\nflowchart TD\n    subgraph solo[\"solo\"]\n        solo__main[\"main\"]\n    end\n\n```\n\n\
## Sequence Diagram\n\n```mermaid\nsequenceDiagram\n    participant P0 as solo\n\n    Note over solo: Internal operations\n    solo->>solo: Process data\n```\n\n\
## Summary and Key Insights\n\n### Purpose\nA tool\n\n### Key Components\n- **main: Contains 1 items\n\n### Dependency Role\nStandalone crate with no workspace dependencies or dependents.\n";
    assert_eq!(page, expected);
}

#[test]
fn docs_crate_page_with_neighbours() {
    let map = sample_map();
    let page = docs::generate_crate_markdown(
        "util",
        "/ws/util",
        &None,
        false,
        true,
        Vec::new(),
        &map,
    );
    assert!(page.starts_with("# util\n\nUnknown\n\n---\n```yaml\ncrate:\n  name: util\n  path: util\n  version: 0.0.0\n  type: library\n"));
    assert!(page.contains("\nworkspace_dependencies:\n  - core-lib\n\ndependents:\n  - app\n```\n"));
    assert!(page.contains("    subgraph dependencies[\"Dependencies\"]\n        core_lib[\"core-lib\"]\n    end\n\n    util --> core_lib\n"));
    assert!(page.contains("\n    subgraph dependents[\"Dependents\"]\n        app[\"app\"]\n    end\n\n    app --> util\n"));
    assert!(page.contains("    participant P0 as util\n    participant P1 as core-lib\n    participant P2 as app\n\n"));
    assert!(page.contains("- No module structure detected\n"));
    assert!(page.ends_with("Intermediate node - depends on 1 crates and is depended upon by 1 crates.\n"));
}

#[test]
fn docs_architecture_page() {
    let members = vec![member("solo", "/w/solo", true, false)];
    let page = docs::generate_architecture_diagrams(
        "/w",
        &members,
        &DependencyMap::new(),
        &strings(&["solo"]),
    );
    let expected_head = "# Architecture Diagrams\n\nAI-optimized documentation for workspace dependency visualization.\n\n---\n```yaml\ncrates:\n  - name: solo\n    path: solo\n    type: binary\n\ndependencies:\n```\n---\n\n## Flowchart Diagram\n\n```mermaid\nflowchart TD\n    %% Workspace structure\n    solo[\"solo\"]\n\n    %% Dependencies\n```\n\n## Sequence Diagram\n\n```mermaid\nsequenceDiagram\n    %% Runtime flow between components\n    participant User\n    participant C0 as solo\n    User->>C0: Initialize\n    C0->>C1: Request/Response\n```\n\n## Module Relationships\n\nDetailed module relationships are documented in individual crate files in the `output-md/` directory.\n\n- [solo](solo.md)\n\n## Summary and Key Insights\n\nThis workspace contains 1 crates.\n\n";
    assert!(page.starts_with(expected_head));
    assert!(page.ends_with("- Mermaid comments explaining component purposes\n"));
}

#[test]
fn docs_architecture_page_edges_and_chain() {
    let map = sample_map();
    let members = vec![
        member("core-lib", "/ws/core-lib", false, true),
        member("app", "/ws/app", true, false),
        member("util", "/ws/util", false, true),
    ];
    let all = strings(&["core_lib", "app", "util", "d", "e", "f"]);
    let page = docs::generate_architecture_diagrams("/ws", &members, &map, &all);
    assert!(page.contains("\ndependencies:\n  - app -> core_lib\n  - app -> util\n  - util -> core_lib\n```\n"));
    assert!(page.contains("    %% Dependencies\n    app --> core_lib\n    app --> util\n    util --> core_lib\n```\n"));
    assert!(page.contains("    participant C4 as e\n    User->>C0: Initialize\n"));
    assert!(!page.contains("participant C5"));
    assert!(page.contains("    C3->>C4: Request/Response\n```"));
    assert!(page.contains("- [core-lib](core_lib.md)\n"));
    assert!(page.contains("This workspace contains 3 crates.\n"));
}

#[test]
fn docs_readme() {
    let members = vec![member("a-b", "/ws/crates/a-b", false, true)];
    let page = docs::generate_readme("/ws", &members);
    assert!(page.starts_with("# Workspace Documentation\n\nThis directory contains AI-optimized documentation for the workspace.\n\n"));
    assert!(page.contains("## Workspace Members\n\n- **a-b**: `crates/a-b`\n\n## Regenerating Documentation\n"));
    assert!(page.ends_with("- PowerShell: `./generate-docs.ps1`\n"));
}

#[test]
fn helper_counts_public_items() {
    let src = "pub fn a() {}\n  pub(crate) async fn b() {}\npub struct S; // note\nfn c() {}\n\
               pub(super) fn d() {}\npub const X: u8 = 1;\npub static Y: u8 = 2;\npub type T = u8;\n\
               pub(crate) trait Q {}\npub enum E {}\npub mod m;\n";
    assert_eq!(helper::count_public_items(src), 9);
    assert_eq!(helper::count_public_items(""), 0);
}

fn entry(name: &str, stem: &str, is_dir: bool, is_rs: bool, file_items: usize) -> helper::DirEntry {
    helper::DirEntry {
        name: name.to_string(),
        stem: stem.to_string(),
        is_dir,
        is_rs,
        file_items,
        entries: Vec::new(),
    }
}

fn dir(name: &str, entries: Vec<helper::DirEntry>) -> helper::DirEntry {
    helper::DirEntry {
        name: name.to_string(),
        stem: name.to_string(),
        is_dir: true,
        is_rs: false,
        file_items: 0,
        entries,
    }
}

#[test]
fn helper_walk_counts_all_depths() {
    let deep = dir("c", vec![entry("d.rs", "d", false, true, 7), entry("mod.rs", "mod", false, true, 1)]);
    let mid = dir("b", vec![deep, entry("e.rs", "e", false, true, 2)]);
    let entries = vec![entry("z.rs", "z", false, true, 3), mid, entry("a.rs", "a", false, true, 0)];
    let (total, children) = helper::walk_dir_items(&entries);
    assert_eq!(total, 13);
    assert_eq!(children, strings(&["a", "z"]));
}

#[test]
fn helper_walk_sorts_and_adds_up() {
    let entries = vec![
        entry("b.rs", "b", false, true, 3),
        entry("mod.rs", "mod", false, true, 1),
        dir("a", vec![entry("x.rs", "x", false, true, 2)]),
        entry("README.md", "README", false, false, 9),
    ];
    let (total, children) = helper::walk_dir_items(&entries);
    assert_eq!(total, 6);
    assert_eq!(children, strings(&["b"]));
}

#[test]
fn helper_walk_of_empty_directory() {
    let (total, children) = helper::walk_dir_items(&Vec::new());
    assert_eq!(total, 0);
    assert!(children.is_empty());
}

#[test]
fn helper_modules_files_then_directories() {
    let api = dir(
        "api",
        vec![
            entry("routes.rs", "routes", false, true, 1),
            dir("v1", vec![entry("mod.rs", "mod", false, true, 2)]),
            entry("handlers.rs", "handlers", false, true, 2),
        ],
    );
    let entries = vec![
        entry("main.rs", "main", false, true, 2),
        api,
        entry("mod.rs", "mod", false, true, 4),
        entry("config.rs", "config", false, true, 0),
    ];
    let ms = helper::parse_crate_modules(&entries);
    let paths: Vec<&str> = ms.iter().map(|m| m.path.as_str()).collect();
    assert_eq!(paths, vec!["config", "main", "api/"]);
    assert!(ms[2].is_dir && ms[2].display == "api/" && ms[2].item_count == 5);
    assert_eq!(ms[2].children, strings(&["handlers", "routes"]));
    assert!(!ms[0].is_dir && ms[0].children.is_empty());
}

#[test]
fn helper_crate_types() {
    assert_eq!(helper::detect_crate_type(true, true, false), "binary");
    assert_eq!(helper::detect_crate_type(false, false, true), "library");
    assert_eq!(helper::detect_crate_type(false, true, false), "library");
    assert_eq!(helper::detect_crate_type(false, false, false), "unknown");
}

#[test]
fn helper_manifest_package_table_only() {
    let toml = "[workspace]\nversion = \"9.9.9\"\n[package]\nname = \"x\"\nversion = \"0.2.0\"\ndescription = 'Quoted'\n[dependencies]\nversion = \"1\"\n";
    let (v, d) = helper::parse_cargo_toml(toml);
    assert_eq!(v, "0.2.0");
    assert_eq!(d, "Quoted");
}

#[test]
fn helper_manifest_workspace_markers_ignored() {
    let toml = "[package]\nversion.workspace = true\ndescription.workspace = true\n";
    let (v, d) = helper::parse_cargo_toml(toml);
    assert_eq!(v, "0.0.0");
    assert_eq!(d, "");
}

#[test]
fn helper_manifest_inherited_description_keeps_earlier_value() {
    let toml = "[package]\ndescription = \"Own\"\ndescription.workspace = true\nversion=\"1.2.3\"\n";
    let (v, d) = helper::parse_cargo_toml(toml);
    assert_eq!(v, "1.2.3");
    assert_eq!(d, "Own");
}

#[test]
fn helper_manifest_multi_line_description() {
    let toml = "[package]\ndescription = \"\"\"\nA multi-line text\"\"\"\n";
    assert_eq!(helper::parse_cargo_toml(toml), ("0.0.0".to_string(), "A multi-line text".to_string()));
    let two = "[package]\ndescription = \"\"\"First line\nsecond line\"\"\"\nversion = \"0.3.0\"\n";
    assert_eq!(helper::parse_cargo_toml(two), ("0.3.0".to_string(), "First line\nsecond line".to_string()));
    let one = "[package]\ndescription = \"\"\"Inline\"\"\"\n";
    assert_eq!(helper::parse_cargo_toml(one).1, "Inline");
}

#[test]
fn helper_manifest_trailing_comment_dropped() {
    let toml = "[package]\ndescription = \"A tool\" # cli\nversion = \"2.0.0\"\n";
    assert_eq!(helper::parse_cargo_toml(toml), ("2.0.0".to_string(), "A tool".to_string()));
    let single = "[package]\ndescription = 'A tool' # cli\n";
    assert_eq!(helper::parse_cargo_toml(single).1, "A tool");
}

#[test]
fn helper_manifest_version_strips_only_quotes() {
    let toml = "[package]\nversion = \"1.0\" # c\n";
    assert_eq!(helper::parse_cargo_toml(toml).0, "1.0\" # c");
    let bare = "[package]\nversion \"1.0\"\n";
    assert_eq!(helper::parse_cargo_toml(bare).0, "1.0");
}

#[test]
fn helper_manifest_escaped_quotes_kept() {
    let toml = "[package]\ndescription = \"A \\\"b\\\" c\"\n";
    assert_eq!(helper::parse_cargo_toml(toml).1, "A \\\"b\\\" c");
    let commented = "[package]\ndescription = \"A \\\"b\\\" c\" # note\n";
    assert_eq!(helper::parse_cargo_toml(commented).1, "A \\\"b\\\" c");
}

#[test]
fn helper_manifest_workspace_and_true_skipped() {
    let toml = "[package]\ndescription = \"Own\"\ndescription = \"workspace\"\ndescription = \"true\"\n";
    assert_eq!(helper::parse_cargo_toml(toml).1, "Own");
    let table = "[package]\ndescription = \"Own\"\ndescription = { workspace = true }\n";
    assert_eq!(helper::parse_cargo_toml(table).1, "Own");
}

#[test]
fn helper_manifest_keys_read_as_prefixes() {
    let toml = "[package]\ndescription-x = \"foo\"\n";
    assert_eq!(helper::parse_cargo_toml(toml).1, "-x = \"foo");
    let bare = "[package]\ndescription = plain text\n";
    assert_eq!(helper::parse_cargo_toml(bare).1, "plain text");
}

#[test]
fn helper_manifest_single_quoted_version_ignored() {
    let toml = "[package]\nversion = '2.0.0'\ndescription = 'Single'\n";
    assert_eq!(helper::parse_cargo_toml(toml), ("0.0.0".to_string(), "Single".to_string()));
}

#[test]
fn helper_manifest_empty_description_keeps_earlier_value() {
    let toml = "[package]\ndescription = \"Kept\"\ndescription = \"\"\n";
    assert_eq!(helper::parse_cargo_toml(toml).1, "Kept");
}

#[test]
fn helper_counts_item_with_trailing_comment() {
    assert_eq!(helper::count_public_items("pub fn a() {} // helper"), 1);
    assert_eq!(helper::count_public_items("// pub fn a() {}\n/// pub fn b() {}\n"), 0);
}

#[test]
fn helper_walk_skips_subdirectories_in_listing() {
    let entries = vec![
        dir("sub", vec![entry("y.rs", "y", false, true, 4), entry("notes.txt", "notes", false, false, 7)]),
        entry("x.rs", "x", false, true, 1),
    ];
    let (total, children) = helper::walk_dir_items(&entries);
    assert_eq!(total, 5);
    assert_eq!(children, strings(&["x"]));
}

#[test]
fn helper_server_flow() {
    let info = helper_info("api-server", &["store"], &["web"]);
    let expected = "    Note over api-server: Request handling\n    web->>api-server: API request\n    api-server->>api-server: Validate + route\n\
\n    Note over api-server: Storage operations\n    api-server->>store: Query/Persist data\n    store-->>api-server: Data result\n\
\n    api-server-->>web: Response\n";
    assert_eq!(helper::generate_sequence_flow(&info), expected);
}

#[test]
fn helper_plain_flow_without_neighbours() {
    let info = helper_info("solo", &[], &[]);
    assert_eq!(helper::generate_sequence_flow(&info), "    Note over solo: Internal operations\n");
}

#[test]
fn helper_cli_word_matches_client_branch() {
    let info = helper_info("my-cli", &[], &[]);
    let f = helper::generate_sequence_flow(&info);
    assert_eq!(f, "    Note over my-cli: User interaction\n    User->>my-cli: User action/input\n\n    my-cli->>User: Update UI state\n");
}

#[test]
fn helper_crate_page() {
    let toml = "[package]\nname = \"solo\"\nversion = \"0.2.0\"\ndescription = \"Helper\"\n";
    let modules = vec![
        helper::ModuleInfo {
            path: "lib".to_string(),
            display: "lib".to_string(),
            item_count: 3,
            children: Vec::new(),
            is_dir: false,
        },
        helper::ModuleInfo {
            path: "api/".to_string(),
            display: "api/".to_string(),
            item_count: 2,
            children: strings(&["handlers", "routes"]),
            is_dir: true,
        },
        helper::ModuleInfo {
            path: "empty".to_string(),
            display: "empty".to_string(),
            item_count: 0,
            children: Vec::new(),
            is_dir: false,
        },
    ];
    let page = helper::generate_crate_markdown(
        "solo",
        "/w/solo",
        &Some(toml.to_string()),
        false,
        true,
        false,
        modules,
        &DependencyMap::new(),
    );
    let expected = "# solo\n\nHelper\n\n---\n```yaml\ncrate:\n  name: solo\n  path: solo\n  version: 0.2.0\n  type: library\n  description: Helper\n```\n---\n\n\
## Flowchart Diagram\n\n```mermaid\nflowchart TD\n    subgraph solo[\"solo\"]\n        solo__lib[\"lib\"]\n        solo__api/[\"api/\"]\n        solo__empty[\"empty\"]\n    end\n```\n\n\
## Sequence Diagram\n\n```mermaid\nsequenceDiagram\n    participant P0 as solo\n\n    Note over solo: Internal operations\n```\n\n\
## Summary and Key Insights\n\n### Purpose\nHelper\n\n### Key Components\n- **lib** (3 items)\n- **api/** (2 items) \u{2014} handlers, routes\n- **empty**\n\n### Dependency Role\nStandalone crate \u{2014} no workspace dependencies or dependents.\n";
    assert_eq!(page, expected);
}

#[test]
fn helper_crate_page_roles() {
    let map = sample_map();
    let page = helper::generate_crate_markdown("core-lib", "/ws/core-lib", &None, false, true, false, Vec::new(), &map);
    assert!(page.contains("  version: 0.0.0\n"));
    assert!(page.contains("\ndependents:\n  - app\n  - util\n```\n"));
    assert!(page.ends_with("Foundation node \u{2014} depended upon by 2 crates, no workspace dependencies.\n"));
    let page = helper::generate_crate_markdown("app", "/ws/app", &None, true, false, false, Vec::new(), &map);
    assert!(page.ends_with("Leaf node \u{2014} depends on 2 workspace crates, nothing depends on it.\n"));
}

#[test]
fn helper_architecture_and_readme() {
    let map = sample_map();
    let members = vec![
        member("core-lib", "/ws/core-lib", false, true),
        member("app", "/ws/app", true, false),
    ];
    let page = helper::generate_architecture_diagrams("/ws", &members, &map, &strings(&["core_lib", "app"]));
    assert!(page.starts_with("# Architecture Diagrams\n\nAI-optimized dependency visualization.\n\n---\n```yaml\ncrates:\n  - name: core-lib\n    path: core-lib\n    type: library\n  - name: app\n    path: app\n    type: binary\n\ndependencies:\n  - app -> core_lib\n  - app -> util\n  - util -> core_lib\n```\n"));
    assert!(page.contains("flowchart TD\n    core_lib[\"core-lib\"]\n    app[\"app\"]\n\n    app --> core_lib\n"));
    assert!(page.ends_with("- [core-lib](core_lib.md)\n- [app](app.md)\n\n## Summary\n\nWorkspace with 2 crates. See `output-md/` for details.\n"));
    let readme = helper::generate_readme("/ws", &members);
    assert!(readme.contains("- `deps.svg` \u{2014} SVG dependency graph (cargo-arc)\n"));
    assert!(readme.contains("## Workspace Members\n\n- **core-lib**: `core-lib`\n- **app**: `app`\n\n## Regenerate\n"));
}
