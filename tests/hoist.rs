use cargo_hoist::classify::{classify, local_path};
use cargo_hoist::collect::{collect, Declared, Occurrence};
use cargo_hoist::decl::{Decl, Entry, Scalar};
use cargo_hoist::reconcile::{accept, dep_names, distinct_sources, parse_choice, parse_choice_trimmed};
use cargo_hoist::relpath::{relativize, with_rel_prefix};
use cargo_hoist::rewrite::{rewrite_decl, rewrite_member, root_additions, shared_entry, NamedDecl, SharedDep};
use cargo_hoist::source::DepSource;

fn s(x: &str) -> Scalar {
    Scalar::Str(x.to_string())
}

fn e(k: &str, v: Scalar) -> Entry {
    Entry { key: k.to_string(), value: v }
}

fn inline(es: Vec<Entry>) -> Decl {
    Decl::Table { inline: true, entries: es }
}

fn declared(member: usize, name: &str, decl: Decl, resolved: Option<&str>) -> Declared {
    Declared { member, name: name.to_string(), decl, resolved: resolved.map(|r| r.to_string()) }
}

fn named(name: &str, decl: Decl) -> NamedDecl {
    NamedDecl { name: name.to_string(), decl }
}

fn git(url: &str, rev: Option<&str>) -> DepSource {
    DepSource::Git { url: url.to_string(), branch: None, rev: rev.map(|r| r.to_string()), tag: None }
}

#[test]
fn bare_string_is_a_version() {
    let d = Decl::Bare(s("1.2"));
    assert_eq!(classify(&d, &None), Some(DepSource::Version("1.2".to_string())));
    assert_eq!(classify(&Decl::Bare(Scalar::Bool(true)), &None), None);
    assert_eq!(classify(&Decl::Bare(Scalar::Other), &None), None);
}

#[test]
fn git_takes_precedence_and_copies_refs() {
    let d = inline(vec![
        e("version", s("0.1")),
        e("git", s("https://example.com/r")),
        e("branch", s("main")),
        e("tag", Scalar::Bool(true)),
    ]);
    let expected = DepSource::Git {
        url: "https://example.com/r".to_string(),
        branch: Some("main".to_string()),
        rev: None,
        tag: None,
    };
    assert_eq!(classify(&d, &None), Some(expected));
    assert_eq!(local_path(&d), None);
}

#[test]
fn path_needs_a_resolved_form() {
    let d = inline(vec![e("path", s("../b")), e("version", s("0.3"))]);
    assert_eq!(local_path(&d), Some("../b".to_string()));
    assert_eq!(classify(&d, &None), None);
    assert_eq!(
        classify(&d, &Some("./crates/b".to_string())),
        Some(DepSource::Path("./crates/b".to_string()))
    );
}

#[test]
fn version_then_workspace_then_unrecognized() {
    let v = inline(vec![e("features", Scalar::Other), e("version", s("2"))]);
    assert_eq!(classify(&v, &None), Some(DepSource::Version("2".to_string())));
    let w = Decl::Table { inline: false, entries: vec![e("workspace", Scalar::Bool(true))] };
    assert_eq!(classify(&w, &None), Some(DepSource::Workspace));
    let n = inline(vec![e("version", Scalar::Other), e("workspace", Scalar::Bool(false))]);
    assert_eq!(classify(&n, &None), None);
}

#[test]
fn describe_lists_each_part() {
    let g = DepSource::Git {
        url: "u".to_string(),
        branch: Some("b".to_string()),
        rev: None,
        tag: Some("t".to_string()),
    };
    assert_eq!(g.describe(), "git: u, branch: b, tag: t");
    assert_eq!(DepSource::Version("1".to_string()).describe(), "version: 1");
    assert_eq!(DepSource::Path("./p".to_string()).describe(), "path: ./p");
    assert_eq!(DepSource::Workspace.describe(), "workspace");
}

#[test]
fn attribute_preservation() {
    let member = inline(vec![
        e("version", s("1.0")),
        e("features", Scalar::Other),
        e("optional", Scalar::Bool(true)),
    ]);
    let other = Decl::Bare(s("1.0"));
    let occs = collect(&vec![
        declared(0, "dep", other, None),
        declared(1, "dep", inline(vec![
            e("version", s("1.0")),
            e("features", Scalar::Other),
            e("optional", Scalar::Bool(true)),
        ]), None),
    ]);
    let opts = distinct_sources(&occs, &"dep".to_string());
    assert_eq!(opts, vec![DepSource::Version("1.0".to_string())]);
    let chosen = accept(&opts, 0).unwrap();
    let root = root_additions(&vec![], &vec![SharedDep { name: "dep".to_string(), source: chosen }]);
    assert_eq!(root, vec![named("dep", Decl::Bare(s("1.0")))]);
    let expected = inline(vec![
        e("workspace", Scalar::Bool(true)),
        e("features", Scalar::Other),
        e("optional", Scalar::Bool(true)),
    ]);
    assert_eq!(rewrite_decl(&member), expected);
}

#[test]
fn rewrite_keeps_table_kind_and_bare_becomes_inline() {
    let full = Decl::Table {
        inline: false,
        entries: vec![e("git", s("g")), e("rev", s("r")), e("default-features", Scalar::Bool(false))],
    };
    assert_eq!(
        rewrite_decl(&full),
        Decl::Table {
            inline: false,
            entries: vec![e("workspace", Scalar::Bool(true)), e("default-features", Scalar::Bool(false))],
        }
    );
    assert_eq!(rewrite_decl(&Decl::Bare(s("3"))), inline(vec![e("workspace", Scalar::Bool(true))]));
}

#[test]
fn path_relativization() {
    assert_eq!(relativize("/w/crates/b", "/w"), Some("./crates/b".to_string()));
    assert_eq!(relativize("/other/b", "/w"), Some("../other/b".to_string()));
    assert_eq!(relativize("/foo/bar/baz", "/foo/bar"), Some("./baz".to_string()));
    assert_eq!(with_rel_prefix("../x"), "../x");
    assert_eq!(with_rel_prefix("./x"), "./x");
    assert_eq!(with_rel_prefix("x"), "./x");
    let d = inline(vec![e("path", s("../b"))]);
    let rel = relativize("/w/crates/b", "/w");
    let src = classify(&d, &rel).unwrap();
    assert_eq!(shared_entry(&src), inline(vec![e("path", s("./crates/b"))]));
}

#[test]
fn conflict_surfacing() {
    let a = inline(vec![e("git", s("https://g/r")), e("rev", s("aaa"))]);
    let b = inline(vec![e("git", s("https://g/r")), e("rev", s("bbb"))]);
    let occs = collect(&vec![declared(0, "r", a, None), declared(1, "r", b, None)]);
    assert_eq!(dep_names(&occs), vec!["r".to_string()]);
    let opts = distinct_sources(&occs, &"r".to_string());
    assert_eq!(opts, vec![git("https://g/r", Some("aaa")), git("https://g/r", Some("bbb"))]);
    let chosen = accept(&opts, parse_choice("2\n")).unwrap();
    assert_eq!(chosen, git("https://g/r", Some("bbb")));
    let root = root_additions(&vec![], &vec![SharedDep { name: "r".to_string(), source: chosen }]);
    assert_eq!(root, vec![named("r", inline(vec![e("git", s("https://g/r")), e("rev", s("bbb"))]))]);
}

#[test]
fn skip_on_invalid_input() {
    let opts = vec![DepSource::Version("1".to_string()), DepSource::Version("2".to_string())];
    for line in ["", "\n", "abc", "3", "0", "-1", "99999999999999999999999999", "+"] {
        assert_eq!(accept(&opts, parse_choice(line)), None, "answer {:?}", line);
    }
    assert_eq!(accept(&opts, parse_choice(" 1 \n")), Some(DepSource::Version("1".to_string())));
    assert_eq!(accept(&opts, parse_choice("+2")), Some(DepSource::Version("2".to_string())));
    let (deps, modified) = rewrite_member(&vec![named("x", Decl::Bare(s("1")))], &vec![]);
    assert!(!modified);
    assert_eq!(deps, vec![named("x", Decl::Bare(s("1")))]);
}

#[test]
fn parse_choice_reads_numbers() {
    assert_eq!(parse_choice_trimmed("42"), 42);
    assert_eq!(parse_choice_trimmed("007"), 7);
    assert_eq!(parse_choice_trimmed(" 4"), 0);
    assert_eq!(parse_choice("  3  "), 3);
    assert_eq!(parse_choice_trimmed("18446744073709551615"), usize::MAX);
    assert_eq!(parse_choice_trimmed("18446744073709551616"), 0);
}

#[test]
fn already_shared_exclusion() {
    let shared = Decl::Table { inline: false, entries: vec![e("workspace", Scalar::Bool(true)), e("git", s("g"))] };
    let occs = collect(&vec![
        declared(0, "d", inline(vec![e("workspace", Scalar::Bool(true))]), None),
        declared(1, "d", Decl::Bare(s("1")), None),
        declared(2, "d", shared, None),
    ]);
    assert_eq!(
        occs,
        vec![Occurrence { member: 1, name: "d".to_string(), source: DepSource::Version("1".to_string()) }]
    );
    let (deps, modified) = rewrite_member(
        &vec![named("d", inline(vec![e("workspace", Scalar::Bool(true)), e("optional", Scalar::Bool(true))]))],
        &vec!["d".to_string()],
    );
    assert!(!modified);
    assert_eq!(deps.len(), 1);
}

#[test]
fn idempotence() {
    let names = vec!["a".to_string(), "b".to_string()];
    let deps = vec![
        named("a", Decl::Bare(s("1"))),
        named("b", inline(vec![e("path", s("../b")), e("features", Scalar::Other)])),
        named("c", Decl::Bare(s("2"))),
    ];
    let (once, modified) = rewrite_member(&deps, &names);
    assert!(modified);
    assert_eq!(once[2], named("c", Decl::Bare(s("2"))));
    let (twice, again) = rewrite_member(&once, &names);
    assert!(!again);
    assert_eq!(twice, once);
    let shared = vec![
        SharedDep { name: "a".to_string(), source: DepSource::Version("1".to_string()) },
        SharedDep { name: "b".to_string(), source: DepSource::Path("./b".to_string()) },
    ];
    let added = root_additions(&vec!["a".to_string()], &shared);
    assert_eq!(added, vec![named("b", inline(vec![e("path", s("./b"))]))]);
    assert_eq!(root_additions(&vec!["a".to_string(), "b".to_string()], &shared), vec![]);
    let occs = collect(&vec![declared(0, "a", once[0].decl.duplicate(), None)]);
    assert!(occs.is_empty());
}

#[test]
fn preservation() {
    let deps = vec![named("x", Decl::Bare(s("1"))), named("y", inline(vec![e("git", s("g"))]))];
    let (out, modified) = rewrite_member(&deps, &vec!["z".to_string()]);
    assert!(!modified);
    assert_eq!(out, deps);
}
