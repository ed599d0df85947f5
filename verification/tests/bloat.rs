use susi::bloat::{AstCounts, BloatAuditor, FileFinding};

fn finding(path: &str, oversized: usize, unwraps: usize, secrets: usize) -> FileFinding {
    FileFinding {
        path: path.to_string(),
        lines: 10,
        functions: 2,
        oversized_functions: oversized,
        unwrap_calls: unwraps,
        expect_calls: 0,
        clone_calls: 0,
        unsafe_blocks: 0,
        todo_markers: 0,
        secret_pattern_hits: secrets,
        parse_failed: false,
    }
}

#[test]
fn test_scan_file_skips_secret_pattern_hits_inside_test_module() {
    let secret_str = String::from_utf8(vec![115, 107, 45, 112, 114, 111, 106, 49, 50, 51, 52, 53]).unwrap();
    let content = format!(
        "pub fn ok() {{}}\n\n#[cfg(test)]\nmod tests {{\n    #[test]\n    fn test_rejects_secret() {{\n        assert!(audit(\"{}\").is_err());\n    }}\n}}\n",
        secret_str
    );
    let patterns = vec![format!("s{}", "k-")];
    let finding = BloatAuditor::scan_file("security_like.rs", &content, &patterns, None);
    assert_eq!(
        finding.secret_pattern_hits, 0,
        "a secret-shaped fixture inside a #[cfg(test)] module is the detector being tested, not a leak"
    );
}

#[test]
fn test_scan_file_still_flags_secret_pattern_outside_test_module() {
    let secret_str = String::from_utf8(vec![
        115, 107, 45, 114, 101, 97, 108, 45, 108, 101, 97, 107, 101, 100, 45, 107, 101, 121,
    ])
    .unwrap();
    let content = format!(
        "const KEY: &str = \"{}\";\n\n#[cfg(test)]\nmod tests {{\n    // nothing secret in here\n}}\n",
        secret_str
    );
    let patterns = vec![format!("s{}", "k-")];
    let finding = BloatAuditor::scan_file("leaky.rs", &content, &patterns, None);
    assert_eq!(
        finding.secret_pattern_hits, 1,
        "a real secret pattern outside any test module must still be flagged"
    );
    assert_eq!(finding.lines, 6);
    assert!(finding.parse_failed);
}

#[test]
fn test_scan_file_ignores_bare_todo_word_in_string_literals_and_prose() {
    let tag = format!("{}{}", "TO", "DO");
    let fix = format!("{}{}", "FIX", "ME");
    let content = format!(
        "// This comment discusses the {t}/{f} convention.\nfn check(line: &str) -> bool {{\n    line.contains(\"{t}\") || line.contains(\"{f}\")\n}}\nconst LABEL: &str = \"{t}/{f} markers\";\n",
        t = tag,
        f = fix
    );
    let finding = BloatAuditor::scan_file("self_referential.rs", &content, &vec![], None);
    assert_eq!(
        finding.todo_markers, 0,
        "bare TODO/FIXME occurrences in prose or string literals are not pending-work markers"
    );
}

#[test]
fn test_scan_file_detects_conventionally_tagged_todo_and_fixme_comments() {
    let content = format!(
        "// {}: handle the empty-input case\nfn a() {{}}\n// {}(alice): this panics on overflow\nfn b() {{}}\n",
        format!("{}{}", "TO", "DO"),
        format!("{}{}", "FIX", "ME")
    );
    let ast = AstCounts { functions: 2, oversized_functions: 0, unwrap_calls: 0, expect_calls: 0, clone_calls: 0, unsafe_blocks: 0 };
    let finding = BloatAuditor::scan_file("has_real_todos.rs", &content, &vec![], Some(ast));
    assert_eq!(finding.todo_markers, 2);
    assert_eq!(finding.functions, 2);
    assert!(!finding.parse_failed);
}

#[test]
fn test_compile_report_totals_and_ranks_offenders() {
    let mut fs = vec![
        finding("a.rs", 0, 3, 0),
        finding("b.rs", 1, 0, 0),
        finding("c.rs", 0, 0, 0),
        finding("d.rs", 0, 3, 0),
    ];
    fs[2].parse_failed = true;
    let report = BloatAuditor::compile_report(&fs, 2_500_000_000, 7, 4, 12);
    assert_eq!(report.files_scanned, 4);
    assert_eq!(report.files_failed_to_parse, 1);
    assert_eq!(report.total_lines, 40);
    assert_eq!(report.total_unwrap_calls, 6);
    let order: Vec<&str> = report.worst_offenders.iter().map(|f| f.path.as_str()).collect();
    assert_eq!(order, vec!["b.rs", "a.rs", "d.rs"]);
    let text = BloatAuditor::render_report(&report, "2.50");
    assert!(text.starts_with("# SUSI Bloat & Security Audit (AST + rayon parallel, Mandate 3)\n\n- **Files Scanned**: 4 (1 failed to parse)\n"));
    assert!(text.contains("- **Threads Used**: 4 | **Elapsed**: 12ms\n"));
    assert!(text.contains("- **target/ Build Artifact Bloat**: 2.50GB across 7 files\n"));
    assert!(text.ends_with("\n### Worst Offenders\n- `b.rs`: 10 lines, 1 oversized fns, 0 unwrap, 0 clone, 0 unsafe, 0 secret hits\n- `a.rs`: 10 lines, 0 oversized fns, 3 unwrap, 0 clone, 0 unsafe, 0 secret hits\n- `d.rs`: 10 lines, 0 oversized fns, 3 unwrap, 0 clone, 0 unsafe, 0 secret hits\n"));
}

#[test]
fn test_compile_report_keeps_ten_offenders() {
    let fs: Vec<FileFinding> = (0..15).map(|i| finding(&format!("f{}.rs", i), 0, i, 0)).collect();
    let report = BloatAuditor::compile_report(&fs, 0, 0, 1, 0);
    assert_eq!(report.worst_offenders.len(), 10);
    assert_eq!(report.worst_offenders[0].path, "f14.rs");
    assert_eq!(report.worst_offenders[9].path, "f5.rs");
    let empty = BloatAuditor::compile_report(&vec![finding("z.rs", 0, 0, 0)], 0, 0, 1, 0);
    assert!(BloatAuditor::render_report(&empty, "0.00").ends_with("\nNo files exceeded bloat thresholds.\n"));
}

#[test]
fn test_collect_secret_hits_counts_per_line_and_pattern() {
    let files = vec![
        ("src/a.rs".to_string(), "let k = \"sk-1\";\nlet g = \"ghp_sk-2\";\n".to_string()),
        ("src/b.rs".to_string(), "clean\n".to_string()),
    ];
    let patterns = vec!["sk-".to_string(), "ghp_".to_string(), String::new()];
    assert_eq!(BloatAuditor::collect_secret_hits(&files, &patterns), vec![("src/a.rs".to_string(), 3)]);
    assert!(BloatAuditor::collect_secret_hits(&files, &vec![]).is_empty());
}

#[test]
fn try_scan_file_scans_ordinary_files() {
    let patterns = vec!["sk-live".to_string()];
    let content = "fn a() {}\n// TODO: later\nconst K: &str = \"sk-live\";\n";
    let f = BloatAuditor::try_scan_file("src/a.rs", content, &patterns, None).unwrap();
    let g = BloatAuditor::scan_file("src/a.rs", content, &patterns, None);
    assert_eq!((f.lines, f.todo_markers, f.secret_pattern_hits), (g.lines, g.todo_markers, g.secret_pattern_hits));
    assert_eq!((f.lines, f.todo_markers, f.secret_pattern_hits), (3, 1, 1));
    assert!(f.parse_failed);
}

#[test]
fn scan_source_counts_the_syntax_walk_when_the_file_parses() {
    let summary = susi::bloat::SyntaxSummary {
        fn_statements: vec![2, 61],
        method_calls: vec!["unwrap".into(), "clone".into(), "map".into(), "unwrap".into()],
        unsafe_blocks: 1,
    };
    let content = "fn a() { let x = Some(1); x.unwrap(); }\n";
    let f = BloatAuditor::scan_source("src/a.rs", content, &vec![], &summary).unwrap();
    assert!(!f.parse_failed);
    assert_eq!(
        (f.functions, f.oversized_functions, f.unwrap_calls, f.expect_calls, f.clone_calls, f.unsafe_blocks),
        (2, 1, 2, 0, 1, 1)
    );
    let broken = BloatAuditor::scan_source("src/b.rs", "fn (", &vec![], &summary).unwrap();
    assert!(broken.parse_failed);
    assert_eq!((broken.functions, broken.unwrap_calls), (0, 0));
}
