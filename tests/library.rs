use dcm_finder::discover::{is_hidden, select_files, WalkEntry};
use dcm_finder::scanner::{merge_outcomes, Outcome, ScanEntry, Scanner};
use dcm_finder::tags::{tag_value_of, TagValue};
use dcm_finder::text::{clean_str, join_values, trim_padding};

fn strings(v: &[&str]) -> Vec<String> {
    v.iter().map(|s| s.to_string()).collect()
}

fn entry(path: &str, names: &[&str], is_file: bool) -> WalkEntry {
    WalkEntry { path: path.to_string(), names: strings(names), is_file }
}

fn tag_map(pairs: &[(&str, &str)]) -> Vec<TagValue> {
    pairs
        .iter()
        .map(|(n, v)| TagValue { name: n.to_string(), value: v.to_string() })
        .collect()
}

/// A tree with a hidden directory `.secret`, a hidden file `.env`, and three
/// visible files, as a walk that does not prune reports it.
fn sample_tree() -> Vec<WalkEntry> {
    vec![
        entry("root", &["root"], false),
        entry("root/a.dcm", &["root", "a.dcm"], true),
        entry("root/.env", &["root", ".env"], true),
        entry("root/sub", &["root", "sub"], false),
        entry("root/sub/b.dcm", &["root", "sub", "b.dcm"], true),
        entry("root/.secret", &["root", ".secret"], false),
        entry("root/.secret/c.dcm", &["root", ".secret", "c.dcm"], true),
        entry("root/.secret/d/e.dcm", &["root", ".secret", "d", "e.dcm"], true),
        entry("root/notes.txt", &["root", "notes.txt"], true),
    ]
}

fn sorted(mut v: Vec<String>) -> Vec<String> {
    v.sort();
    v
}

#[test]
fn single_value_trailing_null_and_space_is_trimmed() {
    let r = tag_value_of(&Some(strings(&["VAL\0 "])), "*NO_TAG*");
    assert_eq!(r, "VAL");
}

#[test]
fn multiple_values_are_joined_in_brackets() {
    let r = tag_value_of(&Some(strings(&["A", "B"])), "*NO_TAG*");
    assert_eq!(r, "[A, B]");
}

#[test]
fn multiple_values_padding_trimmed_inside_brackets() {
    let r = tag_value_of(&Some(strings(&["  A", "B", "C\0"])), "*NO_TAG*");
    assert_eq!(r, "[A, B, C]");
}

#[test]
fn zero_values_give_empty_string() {
    let r = tag_value_of(&Some(Vec::new()), "*NO_TAG*");
    assert_eq!(r, "");
}

#[test]
fn unresolvable_gives_default_marker() {
    let r = tag_value_of(&None, "*NO_TAG*");
    assert_eq!(r, "*NO_TAG*");
}

#[test]
fn padded_default_marker_is_trimmed_like_any_value() {
    let r = tag_value_of(&None, " none ");
    assert_eq!(r, "none");
}

#[test]
fn single_value_trimmed_twice() {
    // whitespace, nulls; then the final pass: whitespace, nulls again
    let r = tag_value_of(&Some(strings(&["A\0 \0"])), "-");
    assert_eq!(r, "A");
    assert_eq!(clean_str("A\0 \0"), "A\0 ");
}

#[test]
fn single_value_unicode_whitespace() {
    let r = tag_value_of(&Some(strings(&["\u{3000}\tSmith^John \u{a0}"])), "-");
    assert_eq!(r, "Smith^John");
}

#[test]
fn trim_padding_each_kind() {
    assert_eq!(trim_padding("  a b \n", false), "a b");
    assert_eq!(trim_padding("\0\0a\0b\0", true), "a\0b");
    assert_eq!(trim_padding(" \0a", true), " \0a");
    assert_eq!(trim_padding("   ", false), "");
    assert_eq!(trim_padding("", true), "");
}

#[test]
fn join_values_with_separator() {
    assert_eq!(join_values(&strings(&["x", "y", "z"]), ", "), "x, y, z");
    assert_eq!(join_values(&strings(&["x"]), ", "), "x");
    assert_eq!(join_values(&Vec::new(), ", "), "");
}

#[test]
fn hidden_names() {
    assert!(is_hidden(".secret"));
    assert!(is_hidden("."));
    assert!(!is_hidden("a.dcm"));
    assert!(!is_hidden(""));
}

#[test]
fn select_counts_visible_files_only() {
    let r = sorted(select_files(&sample_tree()));
    assert_eq!(r, strings(&["root/a.dcm", "root/notes.txt", "root/sub/b.dcm"]));
}

#[test]
fn hidden_directory_contributes_nothing() {
    let r = select_files(&sample_tree());
    assert!(r.iter().all(|p| !p.contains(".secret")));
}

#[test]
fn select_drops_duplicate_paths() {
    let tree = vec![
        entry("r/a", &["r", "a"], true),
        entry("r/a", &["r", "a"], true),
        entry("r/b", &["r", "b"], true),
    ];
    assert_eq!(select_files(&tree), strings(&["r/a", "r/b"]));
}

#[test]
fn select_hidden_root_gives_nothing() {
    let tree = vec![entry(".data", &[".data"], false), entry(".data/a", &[".data", "a"], true)];
    assert!(select_files(&tree).is_empty());
}

#[test]
fn select_empty_tree() {
    assert!(select_files(&Vec::new()).is_empty());
}

#[test]
fn new_scanner_keeps_configuration() {
    let mut s = Scanner::new("/data".to_string(), strings(&["PatientName"]), "*".to_string());
    assert_eq!(s.get_root_path(), "/data");
    assert_eq!(s.get_load_tags(), &strings(&["PatientName"]));
    assert_eq!(s.get_tag_val_default(), "*");
    assert_eq!(s.get_root_path_as_pathbuf(), std::path::PathBuf::from("/data"));
    assert!(s.data().is_none());
}

#[test]
fn paths_discover_once_then_use_cache() {
    let mut s = Scanner::new("root".to_string(), Vec::new(), "*".to_string());
    let first = s.paths(sample_tree);
    assert_eq!(sorted(first.clone()), strings(&["root/a.dcm", "root/notes.txt", "root/sub/b.dcm"]));
    let second = s.paths(|| -> Vec<WalkEntry> { panic!("the cached state must be used") });
    assert_eq!(first, second);
    match s.data() {
        Some(d) => assert!(d.iter().all(|e| matches!(e.outcome, Outcome::Unscanned))),
        None => panic!("state expected"),
    }
}

fn fake_extract(ps: &Vec<String>) -> Vec<Option<Vec<TagValue>>> {
    ps.iter()
        .map(|p| {
            if p.ends_with(".dcm") {
                Some(tag_map(&[("PatientName", p.as_str()), ("Modality", "CT")]))
            } else {
                None
            }
        })
        .collect()
}

fn outcome_of<'a>(d: &'a [ScanEntry], path: &str) -> &'a Outcome {
    &d.iter().find(|e| e.path == path).expect("path present").outcome
}

#[test]
fn read_files_records_every_discovered_path() {
    let tags = strings(&["PatientName", "Modality"]);
    let mut s = Scanner::new("root".to_string(), tags, "*".to_string());
    let d = s.read_files(sample_tree, fake_extract).as_ref().expect("state expected");
    assert_eq!(d.len(), 3);
    match outcome_of(d, "root/a.dcm") {
        Outcome::Extracted(m) => {
            assert_eq!(m.len(), 2);
            assert_eq!(m[0].name, "PatientName");
            assert_eq!(m[0].value, "root/a.dcm");
        }
        _ => panic!("tag map expected"),
    }
    assert!(matches!(outcome_of(d, "root/sub/b.dcm"), Outcome::Extracted(_)));
    assert!(matches!(outcome_of(d, "root/notes.txt"), Outcome::Unparseable));
    let extracted = d.iter().filter(|e| matches!(e.outcome, Outcome::Extracted(_))).count();
    assert_eq!(extracted, 2);
}

#[test]
fn read_files_rescans_after_deletion() {
    let mut s = Scanner::new("root".to_string(), strings(&["PatientName"]), "*".to_string());
    let first = s.paths(sample_tree);
    assert!(first.contains(&"root/a.dcm".to_string()));
    s.read_files(sample_tree, fake_extract);
    let without_a = || -> Vec<WalkEntry> {
        sample_tree().into_iter().filter(|e| e.path != "root/a.dcm").collect()
    };
    let d = s.read_files(without_a, fake_extract).as_ref().expect("state expected");
    assert_eq!(d.len(), 2);
    assert!(d.iter().all(|e| e.path != "root/a.dcm"));
}

#[test]
fn merge_pairs_paths_with_outcomes() {
    let ps = strings(&["x", "y"]);
    let outs = vec![None, Some(tag_map(&[("T", "v")]))];
    let d = merge_outcomes(&ps, &outs);
    assert_eq!(d[0].path, "x");
    assert!(matches!(d[0].outcome, Outcome::Unparseable));
    match &d[1].outcome {
        Outcome::Extracted(m) => assert_eq!((m[0].name.as_str(), m[0].value.as_str()), ("T", "v")),
        _ => panic!("tag map expected"),
    }
}

#[test]
fn paths_after_extraction_list_the_extracted_state() {
    let mut s = Scanner::new("root".to_string(), strings(&["PatientName"]), "*".to_string());
    s.read_files(sample_tree, fake_extract);
    let listed = s.paths(|| -> Vec<WalkEntry> { panic!("the cached state must be used") });
    assert_eq!(sorted(listed), strings(&["root/a.dcm", "root/notes.txt", "root/sub/b.dcm"]));
    let d = s.data().as_ref().expect("state expected");
    assert!(d.iter().all(|e| !matches!(e.outcome, Outcome::Unscanned)));
}
