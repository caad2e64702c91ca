use atune::batch::PendingBatch;
use atune::resolve::{find_root, resolve};

fn strings(items: &[&str]) -> Vec<String> {
    items.iter().map(|s| s.to_string()).collect()
}

#[test]
fn nested_file_resolves_to_its_root() {
    let roots = strings(&["root"]);
    assert_eq!(resolve("root/sub/file.txt", &roots), Some("root".to_string()));
}

#[test]
fn absolute_file_resolves_to_its_root() {
    let roots = strings(&["/srv/site", "/srv/docs"]);
    assert_eq!(resolve("/srv/docs/guide/intro.md", &roots), Some("/srv/docs".to_string()));
    assert_eq!(resolve("/srv/site/index.html", &roots), Some("/srv/site".to_string()));
}

#[test]
fn a_root_resolves_to_itself() {
    let roots = strings(&["/srv/site"]);
    assert_eq!(resolve("/srv/site", &roots), Some("/srv/site".to_string()));
}

#[test]
fn the_nearer_of_two_nested_roots_wins() {
    let roots = strings(&["/srv", "/srv/site"]);
    assert_eq!(resolve("/srv/site/css/main.css", &roots), Some("/srv/site".to_string()));
    assert_eq!(resolve("/srv/other/readme", &roots), Some("/srv".to_string()));
}

#[test]
fn a_path_above_or_beside_every_root_is_discarded() {
    let roots = strings(&["/srv/site"]);
    assert_eq!(resolve("/srv", &roots), None);
    assert_eq!(resolve("/srv/sites/index.html", &roots), None);
    assert_eq!(resolve("/", &roots), None);
    assert_eq!(resolve("", &roots), None);
}

#[test]
fn a_name_that_only_starts_like_a_root_is_not_below_it() {
    let roots = strings(&["/srv/site"]);
    assert_eq!(resolve("/srv/site-old/index.html", &roots), None);
}

#[test]
fn without_rules_nothing_resolves() {
    let roots: Vec<String> = Vec::new();
    assert_eq!(resolve("/srv/site/index.html", &roots), None);
}

#[test]
fn find_root_takes_the_first_ancestor_that_is_a_root() {
    let chain = strings(&["/a/b/c", "/a/b", "/a", "/"]);
    assert_eq!(find_root(&chain, &strings(&["/a"])), Some("/a".to_string()));
    assert_eq!(find_root(&chain, &strings(&["/", "/a/b"])), Some("/a/b".to_string()));
    assert_eq!(find_root(&chain, &strings(&["/x"])), None);
    assert_eq!(find_root(&Vec::new(), &strings(&["/a"])), None);
}

#[test]
fn a_batch_holds_each_root_once_in_order_of_arrival() {
    let mut batch = PendingBatch::new();
    assert!(batch.is_empty());
    assert!(batch.insert("/b".to_string()));
    assert!(batch.insert("/a".to_string()));
    assert!(!batch.insert("/b".to_string()));
    assert_eq!(batch.len(), 2);
    assert!(batch.contains(&"/a".to_string()));
    assert!(!batch.contains(&"/c".to_string()));
    assert_eq!(batch.drain(), strings(&["/b", "/a"]));
    assert!(batch.is_empty());
    assert_eq!(batch.drain(), Vec::<String>::new());
}

#[test]
fn a_batch_merges_changed_paths_by_their_roots() {
    let roots = strings(&["/w/one", "/w/two"]);
    let mut batch = PendingBatch::new();
    batch.merge(&roots, "/w/two/x");
    batch.merge(&roots, "/elsewhere/y");
    batch.merge_all(&roots, &strings(&["/w/one/a", "/w/two/b", "/w/one/c/d"]));
    assert_eq!(batch.drain(), strings(&["/w/two", "/w/one"]));
}
