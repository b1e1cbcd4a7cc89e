use repo_manager::localization::{
    default_language, replace_all, replace_first, Localizer,
};
use repo_manager::sorting::{sort_entries, sort_nodes, text_not_after};
use repo_manager::tree::{matches_query, TreeBuilder, TreeNode};
use repo_manager::workspace::RepositoryState;

fn repos(paths: &[&str]) -> Vec<RepositoryState> {
    paths.iter().map(|p| RepositoryState::new(p.to_string())).collect()
}

fn names(nodes: &[TreeNode]) -> Vec<String> {
    nodes.iter().map(|n| n.name.clone()).collect()
}

#[test]
fn new_node_is_empty_and_open() {
    let node = TreeNode::new("src".to_string(), "a/src".to_string());
    assert_eq!((node.name.as_str(), node.path.as_str()), ("src", "a/src"));
    assert!(node.children.is_empty());
    assert!(node.repositories.is_empty());
    assert!(node.is_expanded);
}

#[test]
fn get_or_create_child_makes_a_child_once() {
    let mut root = TreeNode::new("Root".to_string(), String::new());
    root.get_or_create_child("a".to_string(), "a".to_string()).is_expanded = false;
    root.get_or_create_child("b".to_string(), "b".to_string());
    let again = root.get_or_create_child("a".to_string(), "other".to_string());
    assert_eq!(again.path, "a");
    assert!(!again.is_expanded);
    assert_eq!(names(&root.children), vec!["a", "b"]);
    assert_eq!(root.child_position(&"b".to_string()), 1);
    assert_eq!(root.child_position(&"zz".to_string()), 2);
}

#[test]
fn find_child_mut_finds_by_name() {
    let mut root = TreeNode::new("Root".to_string(), String::new());
    root.get_or_create_child("a".to_string(), "a".to_string());
    assert!(root.find_child_mut(&"zz".to_string()).is_none());
    let child = root.find_child_mut(&"a".to_string()).expect("it is there");
    child.repositories.push((7, "/x/a/r".to_string()));
    assert_eq!(root.children[0].repositories, vec![(7, "/x/a/r".to_string())]);
}

#[test]
fn tree_groups_repositories_by_their_directories() {
    let list = repos(&["/home/u/work/api", "/home/u/work/web", "/home/u/play/game", "/solo"]);
    let root = TreeBuilder::build_tree(&list, "", false);
    assert_eq!(root.name, "Root");
    assert_eq!(root.path, "");
    assert_eq!(root.repositories, vec![(3, "/solo".to_string())]);
    assert_eq!(names(&root.children), vec!["home"]);
    let home = &root.children[0];
    assert_eq!(home.path, "home");
    let u = &home.children[0];
    assert_eq!(u.path, "home/u");
    assert_eq!(names(&u.children), vec!["work", "play"]);
    assert_eq!(u.children[0].path, "home/u/work");
    assert_eq!(
        u.children[0].repositories,
        vec![(0, "/home/u/work/api".to_string()), (1, "/home/u/work/web".to_string())]
    );
    assert_eq!(u.children[1].repositories, vec![(2, "/home/u/play/game".to_string())]);
}

#[test]
fn tree_keeps_only_what_the_query_matches() {
    let list = repos(&["/home/u/work/Api", "/home/u/work/web", "/home/u/API-tools/x", "/"]);
    let root = TreeBuilder::build_tree(&list, "aPi", false);
    let u = &root.children[0].children[0];
    assert_eq!(names(&u.children), vec!["work", "API-tools"]);
    assert_eq!(u.children[0].repositories, vec![(0, "/home/u/work/Api".to_string())]);
    assert_eq!(u.children[1].repositories, vec![(2, "/home/u/API-tools/x".to_string())]);
    let all = TreeBuilder::build_tree(&list, "", false);
    assert!(all.repositories.is_empty());
}

#[test]
fn query_is_matched_in_lower_case() {
    let list = repos(&["/srv/\u{c4}PFEL"]);
    let root = TreeBuilder::build_tree(&list, "\u{e4}pfel", false);
    assert_eq!(root.children[0].repositories, vec![(0, "/srv/\u{c4}PFEL".to_string())]);
    assert!(matches_query("", "", "x", "y"));
    assert!(matches_query("q", "q", "xqx", "y"));
    assert!(matches_query("q", "q", "x", "yq"));
    assert!(!matches_query("q", "q", "x", "y"));
}

#[test]
fn sorted_tree_orders_directories_and_repositories_by_name() {
    let list = repos(&["/w/zeta/r2", "/w/alpha/r9", "/w/zeta/r1", "/w/Beta/r5", "/w/zeta/r1b"]);
    let root = TreeBuilder::build_tree(&list, "", true);
    let w = &root.children[0];
    assert_eq!(names(&w.children), vec!["Beta", "alpha", "zeta"]);
    assert_eq!(
        w.children[2].repositories,
        vec![
            (2, "/w/zeta/r1".to_string()),
            (4, "/w/zeta/r1b".to_string()),
            (0, "/w/zeta/r2".to_string())
        ]
    );
}

#[test]
fn sort_agrees_with_the_standard_stable_sort() {
    let keys = ["b", "a", "c", "a", "B", "", "ab", "a", "\u{e9}", "z", "b"];
    let mut nodes: Vec<TreeNode> = keys
        .iter()
        .enumerate()
        .map(|(i, k)| TreeNode::new(k.to_string(), format!("{}", i)))
        .collect();
    let mut expected: Vec<(String, String)> =
        nodes.iter().map(|n| (n.name.clone(), n.path.clone())).collect();
    expected.sort_by(|a, b| a.0.cmp(&b.0));
    sort_nodes(&mut nodes);
    let got: Vec<(String, String)> = nodes.iter().map(|n| (n.name.clone(), n.path.clone())).collect();
    assert_eq!(got, expected);
}

#[test]
fn entries_are_sorted_by_the_names_of_their_repositories() {
    let list = repos(&["/x/c", "/x/a", "/x/b", "/y/a"]);
    let mut entries = vec![
        (0, "/x/c".to_string()),
        (1, "/x/a".to_string()),
        (2, "/x/b".to_string()),
        (3, "/y/a".to_string()),
    ];
    sort_entries(&mut entries, &list);
    let order: Vec<usize> = entries.iter().map(|e| e.0).collect();
    assert_eq!(order, vec![1, 3, 2, 0]);
}

#[test]
fn text_order_is_that_of_strings() {
    let samples = ["", "a", "A", "ab", "b", "aa", "\u{e9}", "\u{1F600}", "z"];
    for a in samples {
        for b in samples {
            assert_eq!(text_not_after(a, b), a <= b, "{:?} and {:?}", a, b);
        }
    }
}

#[test]
fn sort_tree_node_sorts_beneath_every_directory() {
    let list = repos(&["/b/y/r", "/b/x/r", "/a/r"]);
    let mut root = TreeBuilder::build_tree(&list, "", false);
    assert_eq!(names(&root.children), vec!["b", "a"]);
    TreeBuilder::sort_tree_node(&mut root, &list);
    assert_eq!(names(&root.children), vec!["a", "b"]);
    assert_eq!(names(&root.children[1].children), vec!["x", "y"]);
}

#[test]
fn replace_all_replaces_every_occurrence() {
    assert_eq!(replace_all("a{0}b{0}", "{0}", "X"), "aXbX");
    assert_eq!(replace_all("aaa", "aa", "b"), "ba");
    assert_eq!(replace_all("abc", "", "X"), "abc");
    assert_eq!(replace_all("", "a", "X"), "");
    assert_eq!(replace_all("{0}", "{0}", "{0}{0}"), "{0}{0}");
    for (s, p, w) in [("hello world", "o", "0"), ("xxxx", "xx", "y"), ("\u{e9}t\u{e9}", "\u{e9}", "e")] {
        assert_eq!(replace_all(s, p, w), s.replace(p, w));
    }
}

#[test]
fn replace_first_replaces_one_occurrence() {
    assert_eq!(replace_first("a{}b{}", "{}", "X"), Some("aXb{}".to_string()));
    assert_eq!(replace_first("abc", "{}", "X"), None);
    assert_eq!(replace_first("", "{}", "X"), None);
    assert_eq!(replace_first("{}", "{}", ""), Some(String::new()));
    assert_eq!(replace_first("ab", "", "X"), Some("Xab".to_string()));
}

const EN: &str = r#"{"english": "English", "russian": "Russian", "greeting": "Hello {0}, you have {1} of {0}", "next": "{} then {} then {}", "only_en": "Only here"}"#;
const RU: &str = r#"{"english": "Английский", "russian": "Русский", "greeting": "Привет {0}"}"#;

#[test]
fn localizer_reads_its_tables_from_json() {
    let localizer = Localizer::new("en", EN, RU);
    assert_eq!(localizer.get_language(), "en");
    assert_eq!(localizer.t("english"), "English");
    assert_eq!(localizer.t("missing_key"), "missing_key");
    let russian = Localizer::new("ru", EN, RU);
    assert_eq!(russian.t("russian"), "\u{420}\u{443}\u{441}\u{441}\u{43a}\u{438}\u{439}");
    assert_eq!(russian.t("only_en"), "Only here");
}

#[test]
fn localizer_falls_back_when_no_table_can_be_read() {
    let localizer = Localizer::new("en", "not json", "[1, 2]");
    assert_eq!(localizer.t("workspaces"), "Workspaces");
    assert_eq!(localizer.t("language"), "Language");
    assert_eq!(localizer.t("english"), "English");
    assert_eq!(localizer.t("russian"), "Russian");
    assert_eq!(localizer.t("greeting"), "greeting");
    let numbers = Localizer::new("en", r#"{"a": 1}"#, "");
    assert_eq!(numbers.t("a"), "a");
    assert_eq!(numbers.t("workspaces"), "Workspaces");
}

#[test]
fn localizer_changes_only_to_a_known_language() {
    let mut localizer = Localizer::new("en", EN, RU);
    localizer.set_language("de");
    assert_eq!(localizer.get_language(), "en");
    localizer.set_language("ru");
    assert_eq!(localizer.get_language(), "ru");
    let mut english_only = Localizer::new("en", EN, "broken");
    english_only.set_language("ru");
    assert_eq!(english_only.get_language(), "en");
}

#[test]
fn localizer_fills_placeholders() {
    let localizer = Localizer::new("en", EN, RU);
    assert_eq!(localizer.tf("greeting", &["Ann", "3"]), "Hello Ann, you have 3 of Ann");
    assert_eq!(localizer.tf("next", &["a", "b"]), "a then b then {}");
    assert_eq!(localizer.tf("next", &["a", "b", "c", "d"]), "a then b then c");
    assert_eq!(localizer.tf("english", &["unused"]), "English");
    assert_eq!(localizer.tf("no_key {}", &["x"]), "no_key x");
    assert_eq!(localizer.tf("greeting", &[]), "Hello {0}, you have {1} of {0}");
}

#[test]
fn localizer_lists_its_languages() {
    let localizer = Localizer::new("ru", EN, RU);
    let languages = localizer.get_available_languages();
    assert_eq!(languages.len(), 2);
    assert_eq!(languages[0].0, "en");
    assert_eq!(languages[0].1, "\u{410}\u{43d}\u{433}\u{43b}\u{438}\u{439}\u{441}\u{43a}\u{438}\u{439}");
    assert_eq!(languages[1].0, "ru");
    assert_eq!(default_language(), "en");
}

#[test]
fn localizer_from_tables_takes_tables_as_they_are() {
    let en = vec![("k".to_string(), "first".to_string()), ("k".to_string(), "second".to_string())];
    let localizer = Localizer::from_tables("xx", Some(en), None);
    assert_eq!(localizer.get_language(), "xx");
    assert_eq!(localizer.t("k"), "first");
    let none = Localizer::from_tables("en", None, None);
    assert_eq!(none.t("workspaces"), "Workspaces");
}
