use line_markdown::{arrange_entries, lex_less, sorts_before, FileEntry, GlobalConfig};

fn entry(name: &str, is_dir: bool) -> FileEntry {
    FileEntry {
        name: name.to_string(),
        path: format!("/root/{}", name),
        is_dir,
        children: if is_dir { Some(Vec::new()) } else { None },
    }
}

fn names(es: &[FileEntry]) -> Vec<String> {
    es.iter().map(|e| e.name.clone()).collect()
}

#[test]
fn directory_listing_hides_dotfiles_and_puts_dirs_first() {
    let r = arrange_entries(vec![entry(".git", true), entry("README.md", false), entry("src", true)]);
    assert_eq!(names(&r), vec!["src", "README.md"]);
    assert_eq!(r[0].children, Some(Vec::new()));
    assert_eq!(r[1].children, None);
}

#[test]
fn listing_ignores_case() {
    let r = arrange_entries(vec![entry("B.md", false), entry("a.md", false), entry("Zeta", true), entry("alpha", true)]);
    assert_eq!(names(&r), vec!["alpha", "Zeta", "a.md", "B.md"]);
}

#[test]
fn listing_of_nothing_visible() {
    assert!(arrange_entries(vec![entry(".hidden", false)]).is_empty());
    assert!(arrange_entries(Vec::new()).is_empty());
}

#[test]
fn key_comparison() {
    let a: Vec<char> = "ab".chars().collect();
    let b: Vec<char> = "abc".chars().collect();
    assert!(lex_less(&a, &b));
    assert!(!lex_less(&b, &a));
    assert!(!lex_less(&a, &a));
    assert!(sorts_before(true, &b, false, &a));
    assert!(!sorts_before(false, &a, true, &b));
}

#[test]
fn default_config_remembers_no_folder() {
    assert_eq!(GlobalConfig::default().last_opened_folder, None);
}


#[test]
fn names_equal_but_for_case_keep_their_order() {
    let r = arrange_entries(vec![entry("readme.md", false), entry("Docs", true), entry("README.md", false), entry("docs", true)]);
    assert_eq!(names(&r), vec!["Docs", "docs", "readme.md", "README.md"]);
    let r = arrange_entries(vec![entry("README.md", false), entry("readme.md", false)]);
    assert_eq!(names(&r), vec!["README.md", "readme.md"]);
}

#[test]
fn new_entry_children() {
    let d = FileEntry::new("src".to_string(), "/p/src".to_string(), true);
    assert_eq!(d.children, Some(Vec::new()));
    assert!(d.is_dir);
    let f = FileEntry::new("a.md".to_string(), "/p/a.md".to_string(), false);
    assert_eq!(f.children, None);
    assert_eq!(f.name, "a.md");
    assert_eq!(f.path, "/p/a.md");
}
