use geet::repository::id::path::adjoin;
use geet::text::{chars_of, same};

#[test]
fn characters_one_by_one() {
    assert_eq!(chars_of(""), Vec::<char>::new());
    assert_eq!(chars_of("a/é"), vec!['a', '/', 'é']);
}

#[test]
fn sameness() {
    assert!(same("refs/heads/main", "refs/heads/main"));
    assert!(same("", ""));
    assert!(!same("refs/heads/main", "refs/heads/mai"));
    assert!(!same("refs/heads/mai", "refs/heads/main"));
    assert!(!same("refs/heads/main", "refs/heads/maim"));
    assert!(!same("é", "e"));
}

#[test]
fn adjoining() {
    assert_eq!(adjoin("/srv", "a/b"), "/srv/a/b");
    assert_eq!(adjoin("/srv/", "a/b"), "/srv/a/b");
    assert_eq!(adjoin("", "a/b"), "a/b");
    assert_eq!(adjoin("/srv", "/etc"), "/etc");
    assert_eq!(adjoin("/srv", ""), "/srv/");
    for (root, rel) in [("/srv", "a/b"), ("/srv/", "a"), ("", "a"), ("/srv", "/etc"), ("x", "")] {
        let joined = std::path::Path::new(root).join(rel);
        assert_eq!(joined.to_str(), Some(adjoin(root, rel).as_str()));
    }
}
