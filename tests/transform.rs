use csvgears::columns::{resolve_column, resolve_spec};
use csvgears::error::ToolError;
use csvgears::filter::{choose_pattern, exactly_one, PatternChoice, RowFilter};
use csvgears::pattern::{CompiledRegex, Pattern};
use csvgears::projection::{choose_columns, ColumnChoice, Projection};
use csvgears::substitution::Substitution;
use csvgears::text::{chars_of, contains_text, split_lines, split_on};

fn strings(items: &[&str]) -> Vec<String> {
    items.iter().map(|s| s.to_string()).collect()
}

fn abc() -> Vec<String> {
    strings(&["a", "b", "c"])
}

fn regex_filter(header: &Vec<String>, column: &str, pattern: &str, invert: bool) -> RowFilter {
    let p = Pattern::from_regex(pattern).unwrap();
    match RowFilter::new(header, &column.to_string(), p, invert) {
        Ok(f) => f,
        Err(_) => panic!("column should resolve"),
    }
}

fn substitution(
    header: &Vec<String>,
    column: &str,
    result_column: Option<&str>,
    pattern: &str,
    replacement: &str,
) -> Result<(Substitution, Vec<String>), ToolError> {
    let re = CompiledRegex::new(pattern).unwrap();
    Substitution::new(
        header,
        &column.to_string(),
        result_column.map(|s| s.to_string()),
        re,
        replacement.to_string(),
    )
}

#[test]
fn split_on_keeps_empty_pieces() {
    assert_eq!(split_on("a,,b", ','), strings(&["a", "", "b"]));
    assert_eq!(split_on("", ','), strings(&[""]));
    assert_eq!(split_on("x,", ','), strings(&["x", ""]));
    assert_eq!(split_on("é;ü", ';'), strings(&["é", "ü"]));
}

#[test]
fn split_lines_follows_line_endings() {
    assert_eq!(split_lines("x\r\ny\n"), strings(&["x", "y"]));
    assert_eq!(split_lines("a\nb"), strings(&["a", "b"]));
    assert_eq!(split_lines(""), Vec::<String>::new());
    assert_eq!(split_lines("a\r"), strings(&["a\r"]));
    assert_eq!(split_lines("\n\n"), strings(&["", ""]));
}

#[test]
fn chars_and_containment() {
    assert_eq!(chars_of("héllo"), vec!['h', 'é', 'l', 'l', 'o']);
    assert!(contains_text("hello", "ll"));
    assert!(contains_text("abc", ""));
    assert!(!contains_text("ab", "abc"));
    assert!(contains_text("naïve", "ïv"));
    assert!(!contains_text("xyz", "abc"));
}

#[test]
fn resolve_column_takes_first_match() {
    let header = strings(&["a", "b", "a"]);
    assert_eq!(resolve_column(&header, &"a".to_string()), Some(0));
    assert_eq!(resolve_column(&header, &"b".to_string()), Some(1));
    assert_eq!(resolve_column(&header, &"z".to_string()), None);
}

#[test]
fn resolve_spec_keeps_order_and_repeats() {
    let header = abc();
    assert_eq!(resolve_spec(&header, "b,a"), Ok(vec![1, 0]));
    assert_eq!(resolve_spec(&header, "a,a,c"), Ok(vec![0, 0, 2]));
    assert_eq!(resolve_spec(&header, "a,z,y"), Err("z".to_string()));
}

#[test]
fn keep_list_orders_output_by_list() {
    let header = abc();
    let p = match Projection::new(&header, &ColumnChoice::Keep("b,a".to_string())) {
        Ok(p) => p,
        Err(_) => panic!("columns should resolve"),
    };
    assert_eq!(p.apply(&header), strings(&["b", "a"]));
    assert_eq!(p.apply(&strings(&["1", "2", "3"])), strings(&["2", "1"]));
    assert_eq!(p.apply(&strings(&["x", "y", "z"])), strings(&["y", "x"]));
}

#[test]
fn keep_list_may_repeat_columns() {
    let header = abc();
    let p = match Projection::new(&header, &ColumnChoice::Keep("c,c,a".to_string())) {
        Ok(p) => p,
        Err(_) => panic!("columns should resolve"),
    };
    assert_eq!(p.apply(&strings(&["1", "2", "3"])), strings(&["3", "3", "1"]));
}

#[test]
fn omit_list_keeps_header_order() {
    let header = abc();
    let p = match Projection::new(&header, &ColumnChoice::Omit("b".to_string())) {
        Ok(p) => p,
        Err(_) => panic!("columns should resolve"),
    };
    assert_eq!(p.apply(&header), strings(&["a", "c"]));
    assert_eq!(p.apply(&strings(&["1", "2", "3"])), strings(&["1", "3"]));
    let q = match Projection::new(&header, &ColumnChoice::Omit("c,a".to_string())) {
        Ok(p) => p,
        Err(_) => panic!("columns should resolve"),
    };
    assert_eq!(q.apply(&strings(&["1", "2", "3"])), strings(&["2"]));
}

#[test]
fn unknown_column_is_rejected_by_every_tool() {
    let header = abc();
    match Projection::new(&header, &ColumnChoice::Keep("a,zz".to_string())) {
        Err(ToolError::UnknownColumn(name)) => assert_eq!(name, "zz"),
        _ => panic!("expected an unknown column"),
    }
    match Projection::new(&header, &ColumnChoice::Omit("q".to_string())) {
        Err(ToolError::UnknownColumn(name)) => assert_eq!(name, "q"),
        _ => panic!("expected an unknown column"),
    }
    let p = Pattern::FixedString("x".to_string());
    match RowFilter::new(&header, &"d".to_string(), p, false) {
        Err(ToolError::UnknownColumn(name)) => assert_eq!(name, "d"),
        _ => panic!("expected an unknown column"),
    }
    match substitution(&header, "d", None, "a", "b") {
        Err(ToolError::UnknownColumn(name)) => assert_eq!(name, "d"),
        _ => panic!("expected an unknown column"),
    }
}

#[test]
fn column_lists_are_exclusive() {
    assert!(matches!(choose_columns(None, None), Err(ToolError::Configuration)));
    assert!(matches!(
        choose_columns(Some("a".to_string()), Some("b".to_string())),
        Err(ToolError::Configuration)
    ));
    assert!(matches!(choose_columns(Some("a".to_string()), None), Ok(ColumnChoice::Keep(s)) if s == "a"));
    assert!(matches!(choose_columns(None, Some("b".to_string())), Ok(ColumnChoice::Omit(s)) if s == "b"));
}

#[test]
fn exactly_one_counts_true_values() {
    assert!(exactly_one(&[false, true, false]));
    assert!(!exactly_one(&[false, false, false]));
    assert!(!exactly_one(&[true, true, false]));
    assert!(!exactly_one(&[]));
}

#[test]
fn pattern_kinds_are_exclusive() {
    let s = |x: &str| Some(x.to_string());
    assert!(matches!(choose_pattern(None, None, None), Err(ToolError::Configuration)));
    assert!(matches!(choose_pattern(s("a"), s("b"), None), Err(ToolError::Configuration)));
    assert!(matches!(choose_pattern(s("a"), s("b"), s("c")), Err(ToolError::Configuration)));
    assert!(matches!(choose_pattern(s("a"), None, None), Ok(PatternChoice::Regex(p)) if p == "a"));
    assert!(matches!(choose_pattern(None, s("b"), None), Ok(PatternChoice::FixedString(p)) if p == "b"));
    assert!(matches!(choose_pattern(None, None, s("c")), Ok(PatternChoice::File(p)) if p == "c"));
}

#[test]
fn regex_filter_keeps_matching_rows() {
    let header = strings(&["id", "v"]);
    let keep = regex_filter(&header, "v", "abc", false);
    assert!(keep.keeps(&strings(&["1", "abc123"])));
    assert!(!keep.keeps(&strings(&["2", "xyz"])));
    let drop = regex_filter(&header, "v", "abc", true);
    assert!(!drop.keeps(&strings(&["1", "abc123"])));
    assert!(drop.keeps(&strings(&["2", "xyz"])));
}

#[test]
fn regex_match_is_unanchored() {
    let header = strings(&["v"]);
    let f = regex_filter(&header, "v", "[0-9]+", false);
    assert!(f.keeps(&strings(&["ab12cd"])));
    assert!(!f.keeps(&strings(&["abcd"])));
}

#[test]
fn fixed_string_filter_matches_substrings() {
    let p = Pattern::FixedString("b.c".to_string());
    assert!(p.matches("ab.cd"));
    assert!(!p.matches("abxcd"));
    assert!(p.keeps(true, "abxcd"));
    assert!(!p.keeps(true, "b.c"));
}

#[test]
fn exact_set_needs_whole_cell() {
    let p = Pattern::exact_set_from_text("abc\nxyz\r\n");
    assert!(!p.matches("abcd"));
    assert!(p.matches("abc"));
    assert!(p.matches("xyz"));
    assert!(!p.matches("ab"));
    assert!(!p.matches(""));
}

#[test]
fn invalid_regex_is_reported() {
    assert!(matches!(Pattern::from_regex("foo(bar"), Err(ToolError::PatternCompile(_))));
    assert!(CompiledRegex::new("foo(bar").is_err());
    assert_eq!(CompiledRegex::new("a+").unwrap().source_text(), "a+");
}

#[test]
fn substitution_replaces_every_match() {
    let header = strings(&["k", "v"]);
    let (s, out_header) = substitution(&header, "v", None, "a+", "Z").unwrap();
    assert_eq!(out_header, header);
    assert_eq!(s.apply(&strings(&["1", "aaabaa"])), strings(&["1", "ZbZ"]));
    assert_eq!(s.apply(&strings(&["2", "bbb"])), strings(&["2", "bbb"]));
}

#[test]
fn substitution_expands_capture_groups() {
    let header = strings(&["mail"]);
    let (s, _) = substitution(&header, "mail", None, r"(\w+)@(\w+)", "$2 at $1").unwrap();
    assert_eq!(s.apply(&strings(&["joe@example"])), strings(&["example at joe"]));
}

#[test]
fn append_mode_keeps_source_cell() {
    let header = strings(&["k", "v"]);
    let (s, out_header) = substitution(&header, "v", Some("w"), "a+", "Z").unwrap();
    assert_eq!(out_header, strings(&["k", "v", "w"]));
    assert_eq!(s.apply(&strings(&["1", "aaabaa"])), strings(&["1", "aaabaa", "ZbZ"]));
}

#[test]
fn append_to_existing_column_is_rejected() {
    let header = strings(&["k", "v"]);
    match substitution(&header, "v", Some("k"), "a", "b") {
        Err(ToolError::DuplicateColumn(name)) => assert_eq!(name, "k"),
        _ => panic!("expected a duplicate column"),
    }
}

#[test]
fn header_only_input_still_has_output_header() {
    let header = abc();
    let p = match Projection::new(&header, &ColumnChoice::Omit("a".to_string())) {
        Ok(p) => p,
        Err(_) => panic!("columns should resolve"),
    };
    assert_eq!(p.apply(&header), strings(&["b", "c"]));
    let (_, out_header) = substitution(&header, "a", Some("d"), "x", "y").unwrap();
    assert_eq!(out_header, strings(&["a", "b", "c", "d"]));
}

#[test]
fn repeated_runs_give_identical_output() {
    let header = strings(&["k", "v"]);
    let (s, _) = substitution(&header, "v", None, "a+", "Z").unwrap();
    let record = strings(&["1", "baab"]);
    assert_eq!(s.apply(&record), s.apply(&record));
    let f = regex_filter(&header, "v", "a", false);
    assert_eq!(f.keeps(&record), f.keeps(&record));
}
