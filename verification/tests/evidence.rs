use susi::admin::SusiAdmin;
use susi::evidence::{parse_usize, is_lex_greater, EvidenceIngest};

const LEDGER: &str = "# Evidence\n\
## 1. Pending\n\
\n\
| ID | Tag | Intent | Source | Status |\n\
| :--- | :--- | :--- | :--- | :--- |\n\
| EV-2026041-007 | [MISSION] | build the cache | [manual](symbol://manual) | STAGED |\n\
| EV-2025010-012 | [MOTION] | refactor motion core | [manual](symbol://manual) | DONE |\n\
\n\
## 2. Archive\n";

fn chars(s: &str) -> Vec<char> {
    s.chars().collect()
}

#[test]
fn test_ingest_stages_row_after_table_head_with_next_id() {
    match SusiAdmin::ingest_natural_intent(LEDGER, "optimize the tokenizer", None) {
        EvidenceIngest::Staged { evidence, message } => {
            let expected = "# Evidence\n\
## 1. Pending\n\
\n\
| ID | Tag | Intent | Source | Status |\n\
| :--- | :--- | :--- | :--- | :--- |\n\
| EV-2026041-013 | [MISSION] | optimize the tokenizer | [manual](symbol://manual) | STAGED |\n\
| EV-2026041-007 | [MISSION] | build the cache | [manual](symbol://manual) | STAGED |\n\
| EV-2025010-012 | [MOTION] | refactor motion core | [manual](symbol://manual) | DONE |\n\
\n\
## 2. Archive\n";
            assert_eq!(evidence, expected);
            assert_eq!(message, "Intent ingested successfully as [MISSION] into sovereign memory");
        }
        other => panic!("unexpected {:?}", other),
    }
}

#[test]
fn test_ingest_reports_duplicate_case_insensitively() {
    match SusiAdmin::ingest_natural_intent(LEDGER, "  BUILD the Cache ", None) {
        EvidenceIngest::AlreadyPresent { message } => {
            assert_eq!(message, "Intent '  BUILD the Cache ' is already present in memory ([MISSION])");
        }
        other => panic!("unexpected {:?}", other),
    }
}

#[test]
fn test_ingest_uses_keyword_tag() {
    match SusiAdmin::ingest_natural_intent(LEDGER, "revise the architecture", None) {
        EvidenceIngest::Staged { evidence, message } => {
            assert!(evidence.contains("| EV-2026041-013 | [MOTION] | revise the architecture |"));
            assert_eq!(message, "Intent ingested successfully as [MOTION] into sovereign memory");
        }
        other => panic!("unexpected {:?}", other),
    }
}

#[test]
fn test_ingest_without_pending_section_appends_with_default_suffix() {
    match SusiAdmin::ingest_natural_intent("# Notes\nnothing yet", "write docs", Some("solve_task")) {
        EvidenceIngest::Staged { evidence, .. } => {
            assert_eq!(
                evidence,
                "# Notes\nnothing yet\n| EV-2022920-001 | [MISSION] | write docs | [manual](symbol://manual) | STAGED |\n"
            );
        }
        other => panic!("unexpected {:?}", other),
    }
}

#[test]
fn test_ingest_keeps_trailing_blank_line_without_extra_newline() {
    match SusiAdmin::ingest_natural_intent("## 1. Pending\nrow\n\n", "status", None) {
        EvidenceIngest::Staged { evidence, message } => {
            assert_eq!(
                evidence,
                "## 1. Pending\n| EV-2022920-001 | [QUERY] | status | [manual](symbol://manual) | STAGED |\nrow\n"
            );
            assert_eq!(message, "Intent ingested successfully as [QUERY] into sovereign memory");
        }
        other => panic!("unexpected {:?}", other),
    }
}

#[test]
fn test_ingest_empty_ledger() {
    match SusiAdmin::ingest_natural_intent("", "x", None) {
        EvidenceIngest::Staged { evidence, .. } => {
            assert_eq!(evidence, "| EV-2022920-001 | [MISSION] | x | [manual](symbol://manual) | STAGED |\n");
        }
        other => panic!("unexpected {:?}", other),
    }
}

#[test]
fn test_ledger_index_wide_numbers_and_plus_sign() {
    let ledger = "| EV-1-+41 | a |\n| EV-1-1000 | b |\n| EV-1-x9 | c |\n";
    assert_eq!(SusiAdmin::last_ledger_index(ledger), 1000);
    match SusiAdmin::ingest_natural_intent(ledger, "new", None) {
        EvidenceIngest::Staged { evidence, .. } => {
            assert!(evidence.ends_with("| EV-2022920-1001 | [MISSION] | new | [manual](symbol://manual) | STAGED |\n"));
        }
        other => panic!("unexpected {:?}", other),
    }
}

#[test]
fn test_parse_usize_matches_std() {
    for s in ["", "+", "-1", "+7", "007", "12a", "18446744073709551615", "18446744073709551616", " 1"] {
        assert_eq!(parse_usize(&chars(s)), s.parse::<usize>().ok(), "input {:?}", s);
    }
}

#[test]
fn test_lex_greater_matches_str_order() {
    for (a, b) in [("2026", "2025"), ("2025", "2026"), ("20251", "2025"), ("2025", "20251"), ("b", "abc"), ("", ""), ("é", "z")] {
        assert_eq!(is_lex_greater(&chars(a), &chars(b)), a > b, "{:?} {:?}", a, b);
    }
}
