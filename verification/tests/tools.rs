use joi::builtin::edit::{insert_after_tag, replace_tag_range};
use joi::builtin::lines::{hashline_text, line_hash, line_tag, locate_tag, split_lines_preserving};
use joi::builtin::paths::{
    components, filesystem_root, inside_any, resolve_path, roots_or_default, tidy,
};
use joi::builtin::run::{
    builtins, cap_text, standard_builtins, BashTool, EditTool, GlobTool, GrepTool, ListPlan,
    ListTool, ReadTool, WriteTool,
};
use joi::builtin::search::{
    glob_match, is_probably_binary, list_max, looks_like_network_command, looks_read_only,
    search_text, walk, walk_max, DirTree,
};
use joi::tools::{
    evaluate_permission, validate_args, Json, JsonNumber, Permission, PermissionAction,
    PermissionProfile, PermissionRule, ToolCtx,
};

fn object(fields: &[(&str, &str)]) -> Json {
    Json::Object(fields.iter().map(|(k, v)| (k.to_string(), Json::text(v))).collect())
}

fn ctx(root: &str) -> ToolCtx {
    ToolCtx {
        readable_roots: vec![root.to_string()],
        writable_roots: vec![root.to_string()],
        cwd: root.to_string(),
        timeout_ms: 1_000,
        max_output_bytes: 4096,
        network: false,
    }
}

#[test]
fn empty_read_roots_default_to_filesystem_root() {
    let cwd = "/tmp/joi";
    let fs_root = filesystem_root();
    assert_eq!(roots_or_default(&[], cwd, &fs_root), vec![fs_root]);
}

#[test]
fn empty_write_roots_default_to_cwd() {
    let cwd = "/tmp/joi";
    assert_eq!(roots_or_default(&[], cwd, cwd), vec![cwd.to_string()]);
}

#[test]
fn explicit_relative_roots_resolve_against_cwd() {
    let cwd = "/tmp/joi";
    assert_eq!(
        roots_or_default(&["workspace".to_string()], cwd, cwd),
        vec!["/tmp/joi/workspace".to_string()]
    );
}

#[test]
fn permission_profile_first_match_wins() {
    let profile = PermissionProfile {
        rules: vec![PermissionRule {
            key: "read".to_string(),
            subject: "/tmp/*".to_string(),
            action: PermissionAction::Deny,
        }],
    };
    let request = Permission {
        key: "read".to_string(),
        subject: "/tmp/a".to_string(),
        default_action: PermissionAction::Allow,
        summary: String::new(),
        detail: String::new(),
    };
    assert_eq!(evaluate_permission(&profile, &request), PermissionAction::Deny);
}

#[test]
fn a_request_without_a_rule_gets_its_default() {
    let profile = PermissionProfile {
        rules: vec![
            PermissionRule {
                key: "edit".to_string(),
                subject: "*".to_string(),
                action: PermissionAction::Deny,
            },
            PermissionRule {
                key: "*".to_string(),
                subject: "/exact".to_string(),
                action: PermissionAction::Ask,
            },
        ],
    };
    let request = |subject: &str| Permission {
        key: "read".to_string(),
        subject: subject.to_string(),
        default_action: PermissionAction::Allow,
        summary: String::new(),
        detail: String::new(),
    };
    assert_eq!(evaluate_permission(&profile, &request("/other")), PermissionAction::Allow);
}

#[test]
fn paths_are_resolved_before_they_are_compared() {
    let c = ctx("/work");
    assert_eq!(resolve_path(&c, "a/../b.txt"), "/work/b.txt");
    assert_eq!(resolve_path(&c, "/etc/./passwd"), "/etc/passwd");
    assert_eq!(resolve_path(&c, "../../.."), "/");
    assert!(inside_any("/work/b.txt", &c.readable_roots));
    assert!(!inside_any("/workshop/b.txt", &c.readable_roots));
}

#[test]
fn read_rejects_paths_outside_readable_roots() {
    let result = ReadTool.plan(&object(&[("path", "/etc/passwd")]), &ctx("/root/x")).unwrap_err();
    assert!(!result.ok);
    let escaped = ReadTool.plan(&object(&[("path", "../y")]), &ctx("/root/x")).unwrap_err();
    assert_eq!(escaped.content.get_text("error").as_deref(), Some("path is outside readable roots"));
    let missing = ReadTool.plan(&Json::Null, &ctx("/root/x")).unwrap_err();
    assert_eq!(missing.content.get_text("error").as_deref(), Some("missing path"));
}

#[test]
fn read_prefixes_lines_with_hash_tags() {
    let plan = ReadTool.plan(&object(&[("path", "a.txt")]), &ctx("/w")).unwrap();
    assert_eq!(plan.path, "/w/a.txt");
    let result = ReadTool.answer(&plan, b"alpha\nbeta\n");
    assert!(result.ok);
    let text = result.content.get_text("text").unwrap();
    assert!(text.contains(&format!("1:{}|alpha", line_hash("alpha"))));
    assert!(text.contains(&format!("2:{}|beta", line_hash("beta"))));
    assert_eq!(result.content.get_text("format").as_deref(), Some("line_hash_prefix"));
}

#[test]
fn what_is_read_is_cut_and_read_as_text() {
    assert_eq!(cap_text(b"hello", 3), "hel");
    assert_eq!(cap_text(&[0x61, 0xff, 0x62], 10), "a\u{fffd}b");
}

#[test]
fn write_creates_file_inside_writable_roots() {
    let c = ctx("/w");
    let args = object(&[("path", "a.txt"), ("content", "hi")]);
    assert_eq!(WriteTool.permission(&args, &c).default_action, PermissionAction::Ask);
    let plan = WriteTool.plan(&args, &c).unwrap();
    assert_eq!(plan.path, "/w/a.txt");
    assert_eq!(plan.content, "hi");
    assert!(WriteTool.answer(&plan).ok);
}

fn edited(text: &str, fields: &[(&str, &str)]) -> Result<String, String> {
    let args = object(fields);
    let plan = EditTool.plan(&args, &ctx("/w")).unwrap();
    EditTool
        .apply(&args, &plan, text)
        .map_err(|e| e.content.get_text("error").unwrap_or_default())
}

#[test]
fn edit_replaces_hash_addressed_line() {
    let tag = format!("2:{}", line_hash("beta"));
    let out = edited(
        "alpha\nbeta\ngamma\n",
        &[("path", "a.txt"), ("start", &tag), ("new", "BETA")],
    );
    assert_eq!(out.unwrap(), "alpha\nBETA\ngamma\n");
}

#[test]
fn edit_replaces_hash_addressed_range() {
    let start = format!("2:{}", line_hash("beta"));
    let end = format!("3:{}", line_hash("gamma"));
    let out = edited(
        "alpha\nbeta\ngamma\n",
        &[("path", "a.txt"), ("start", &start), ("end", &end), ("new", "delta\nepsilon")],
    );
    assert_eq!(out.unwrap(), "alpha\ndelta\nepsilon\n");
}

#[test]
fn edit_inserts_after_hash_addressed_line() {
    let after = format!("2:{}", line_hash("beta"));
    let out = edited("alpha\nbeta", &[("path", "a.txt"), ("after", &after), ("new", "gamma")]);
    assert_eq!(out.unwrap(), "alpha\nbeta\ngamma\n");
}

#[test]
fn edit_rejects_stale_hash_tag() {
    let out = edited("alpha\nbeta\n", &[("path", "a.txt"), ("start", "2:000"), ("new", "BETA")]);
    assert!(out.unwrap_err().contains("no longer matches"));
}

#[test]
fn edit_legacy_string_replace_still_works() {
    let out = edited("alpha\nbeta\n", &[("path", "a.txt"), ("old", "beta"), ("new", "BETA")]);
    assert_eq!(out.unwrap(), "alpha\nBETA\n");
}

#[test]
fn bash_network_command_is_denied_by_default() {
    let permission = BashTool.permission(&object(&[("command", "curl https://example.com")]), &ctx("/w"));
    assert_eq!(permission.default_action, PermissionAction::Deny);
    let asked = BashTool.permission(&object(&[("command", "make all")]), &ctx("/w"));
    assert_eq!(asked.default_action, PermissionAction::Ask);
}

#[test]
fn commands_are_told_apart() {
    assert!(looks_like_network_command("wget x"));
    assert!(!looks_like_network_command("echo hi"));
    assert!(looks_read_only("ls -la"));
    assert!(!looks_read_only("rm -rf x"));
}

#[test]
fn a_shown_tag_is_found_and_a_stale_one_is_not() {
    let lines = split_lines_preserving("one\r\ntwo\nthree");
    assert_eq!(lines.len(), 3);
    let shown = hashline_text("one\r\ntwo\nthree");
    assert!(shown.starts_with(&line_tag(0, "one")));
    assert_eq!(locate_tag(&lines, &line_tag(1, "two")), Ok(1));
    assert!(locate_tag(&lines, &line_tag(1, "TWO")).is_err());
    assert!(locate_tag(&lines, "0:abc").is_err());
    assert!(locate_tag(&lines, "nonsense").is_err());
}

#[test]
fn replacing_a_line_by_itself_changes_nothing() {
    let text = "one\r\ntwo\r\n";
    let tag = line_tag(1, "two");
    assert_eq!(replace_tag_range(text, &tag, &tag, "two").unwrap(), text);
    assert_eq!(insert_after_tag(text, &tag, "x").unwrap(), "one\r\ntwo\r\nx\r\n");
}

#[test]
fn globs_match_stars_and_marks() {
    assert!(glob_match("*.rs", "main.rs"));
    assert!(glob_match("a?c", "abc"));
    assert!(!glob_match("a?c", "ac"));
    assert!(glob_match("**", ""));
    assert!(!glob_match("*.rs", "main.rsx"));
}

#[test]
fn search_finds_lines_in_either_case() {
    let mut matches = Vec::new();
    search_text("/f", "Alpha\nbeta\nALPHA", "alpha", false, &mut matches);
    let lines: Vec<usize> = matches.iter().map(|m| m.line).collect();
    assert_eq!(lines, vec![1, 3]);
    let mut exact = Vec::new();
    search_text("/f", "Alpha\nbeta\nALPHA", "ALPHA", true, &mut exact);
    assert_eq!(exact.len(), 1);
    assert!(GrepTool.wants("/f.txt", &exact));
    assert!(is_probably_binary("/x/picture.png"));
    assert!(!GrepTool.wants("/x/picture.png", &exact));
}

#[test]
fn names_select_builtins() {
    assert_eq!(standard_builtins(), vec!["read", "list", "glob", "grep", "write", "edit", "bash"]);
    let all = builtins(&[]);
    assert_eq!(all.schemas().len(), 7);
    let two = builtins(&["write".to_string(), "nonsense".to_string(), "read".to_string()]);
    let names: Vec<&str> = two.schemas().iter().map(|s| s.name.as_str()).collect();
    assert_eq!(names, vec!["read", "write"]);
    assert!(two.get("bash").is_none());
}

#[test]
fn arguments_are_held_to_the_schema() {
    let read = ReadTool.schema();
    assert_eq!(validate_args(&read.parameters, &object(&[("path", "x")])), Ok(()));
    assert!(validate_args(&read.parameters, &object(&[])).is_err());
    let number = Json::Object(vec![("path".to_string(), Json::Number(JsonNumber::Unsigned(3)))]);
    assert_eq!(
        validate_args(&read.parameters, &number),
        Err("argument `path` must be string".to_string())
    );
    assert!(validate_args(&read.parameters, &Json::Null).is_err());
}

fn file(path: &str) -> DirTree {
    DirTree { path: path.to_string(), is_dir: false, children: Vec::new() }
}

fn dir(path: &str, children: Vec<DirTree>) -> DirTree {
    DirTree { path: path.to_string(), is_dir: true, children }
}

fn tree() -> DirTree {
    dir("/r", vec![file("/r/a.txt"), dir("/r/d", vec![file("/r/d/b.txt")]), file("/r/c.rs")])
}

#[test]
fn a_walk_visits_a_directory_before_what_it_holds() {
    assert_eq!(walk(&tree(), 4096), vec!["/r", "/r/a.txt", "/r/d", "/r/d/b.txt", "/r/c.rs"]);
    let wide = dir("/w", (0..200).map(|i| file(&format!("/w/{i}"))).collect());
    assert_eq!(walk(&wide, 0).len(), 100);
    assert_eq!(walk(&wide, 64 * 150).len(), 150);
    assert_eq!(walk(&wide, 1 << 20).len(), 201);
    assert_eq!((walk_max(0), walk_max(64 * 150), walk_max(1 << 30)), (100, 150, 10_000));
    assert_eq!((list_max(63), list_max(640)), (0, 10));
}

#[test]
fn a_walk_needs_no_more_than_the_front_of_a_tree() {
    let deep = |files: usize| {
        let mut top: Vec<DirTree> = (0..98).map(|i| file(&format!("/w/{i}"))).collect();
        top.push(dir("/w/d", (0..files).map(|i| file(&format!("/w/d/{i}"))).collect()));
        dir("/w", top)
    };
    assert_eq!(walk(&deep(0), 0).len(), 100);
    assert_eq!(walk(&deep(9), 0).len(), 101);
    assert_eq!(walk(&deep(9), 0), walk(&deep(1), 0));
}

#[test]
fn a_listing_goes_down_only_where_asked() {
    let plan = |recursive: bool| ListPlan { path: "/r".to_string(), recursive };
    let paths = |recursive: bool| {
        let answer = ListTool.answer(&plan(recursive), &tree(), &ctx("/r"));
        assert!(answer.ok);
        match answer.content.get("entries") {
            Some(Json::Array(entries)) => entries
                .iter()
                .map(|e| (e.get_text("path").unwrap(), e.get_text("kind").unwrap()))
                .collect::<Vec<_>>(),
            other => panic!("expected entries, got {other:?}"),
        }
    };
    let entry = |path: &str, kind: &str| (path.to_string(), kind.to_string());
    assert_eq!(
        paths(false),
        vec![entry("/r/a.txt", "file"), entry("/r/d", "dir"), entry("/r/c.rs", "file")]
    );
    assert_eq!(paths(true).len(), 4);
    let full = ToolCtx { max_output_bytes: 128, ..ctx("/r") };
    let answer = ListTool.answer(&plan(true), &tree(), &full);
    assert!(matches!(answer.content.get("entries"), Some(Json::Array(e)) if e.len() == 2));
}

#[test]
fn a_glob_answers_with_the_paths_that_match() {
    let args = object(&[("path", "/r"), ("pattern", "*.txt")]);
    let plan = GlobTool.plan(&args, &ctx("/r")).unwrap();
    let answer = GlobTool.answer(&plan, &tree(), &ctx("/r"));
    assert_eq!(
        answer.content.get("matches"),
        Some(&Json::Array(vec![Json::text("/r/a.txt"), Json::text("/r/d/b.txt")]))
    );
    assert!(GlobTool.plan(&object(&[]), &ctx("/r")).is_err());
}

#[test]
fn a_search_over_files_gives_the_first_matches() {
    let args = object(&[("pattern", "x")]);
    let plan = GrepTool.plan(&args, &ctx("/r")).unwrap();
    let mut matches = Vec::new();
    let text = "x\n".repeat(90);
    for i in 0..4 {
        let path = format!("/r/{i}.txt");
        if GrepTool.wants(&path, &matches) {
            GrepTool.search_file(&plan, &path, &text, &mut matches);
        }
    }
    assert_eq!(matches.len(), 200);
    assert_eq!((matches[199].path.as_str(), matches[199].line), ("/r/2.txt", 20));
    assert_eq!(matches[0].tag, format!("1:{}", line_hash("x")));

    let mut stepped = Vec::new();
    for i in 0..4 {
        GrepTool.search_next(&plan, &format!("/r/{i}.txt"), Some(&text), &mut stepped);
    }
    assert_eq!(stepped, matches);
    let mut few = Vec::new();
    GrepTool.search_next(&plan, "/r/a.png", Some("x"), &mut few);
    GrepTool.search_next(&plan, "/r/gone.txt", None, &mut few);
    assert!(few.is_empty());
    GrepTool.search_next(&plan, "/r/b.txt", Some("y\nx"), &mut few);
    assert_eq!((few.len(), few[0].line), (1, 2));
}

#[test]
fn a_tidied_path_keeps_its_components() {
    for (path, tidied) in [
        ("/a//b/./../c/", "/a/b/../c"),
        ("./x/../y", "./x/../y"),
        ("../../z", "../../z"),
        ("/..", "/.."),
        ("//", "/"),
        ("", ""),
    ] {
        assert_eq!(tidy(path), tidied);
        assert_eq!(components(&tidy(path)), components(path));
    }
}
