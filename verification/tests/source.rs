use geet::repository::id::{Base, Id};
use geet::repository::source::{
    governing, Authority, Error, Kind, Namespace, Origin, Registry, Visibility,
};

fn id(path: &str) -> Id {
    Id::from_str(path).unwrap()
}

fn base(text: &str) -> Base {
    Base::from_str(text).unwrap()
}

#[test]
fn a_registry_declares_what_was_inserted() {
    let mut registry: Registry<u32> = Registry::new(None);
    assert_eq!(registry.len(), 0);
    assert_eq!(registry.get(&id("a.git")), None);
    assert!(!registry.contains(&id("a.git")));
    assert_eq!(registry.insert(id("a.git"), 1), Ok(true));
    assert_eq!(registry.insert(id("b.git"), 2), Ok(true));
    assert_eq!(registry.len(), 2);
    assert_eq!(registry.get(&id("a.git")), Some(&1));
    assert_eq!(registry.get(&id("/b.git")), Some(&2));
    assert_eq!(registry.get(&id("c.git")), None);
    assert!(registry.contains(&id("b.git")));
    assert_eq!(registry.namespace(), None);
}

#[test]
fn inserting_again_replaces() {
    let mut registry: Registry<&str> = Registry::new(None);
    assert_eq!(registry.insert(id("a.git"), "first"), Ok(true));
    assert_eq!(registry.insert(id("b.git"), "other"), Ok(true));
    assert_eq!(registry.insert(id("/a.git"), "second"), Ok(false));
    assert_eq!(registry.len(), 2);
    assert_eq!(registry.get(&id("a.git")), Some(&"second"));
    assert_eq!(registry.get(&id("b.git")), Some(&"other"));
}

#[test]
fn a_registry_refuses_what_is_out_of_its_scope() {
    let mut top: Registry<u8> = Registry::new(None);
    assert_eq!(top.admits(&id("a.git")), Ok(()));
    assert_eq!(top.admits(&id("?.git")), Err(Error::Reserved));
    assert_eq!(top.admits(&id("user/?.git")), Err(Error::Reserved));
    assert_eq!(top.admits(&id("user/a.git")), Err(Error::Foreign));
    assert_eq!(top.insert(id("user/a.git"), 1), Err(Error::Foreign));
    assert_eq!(top.insert(id("?.git"), 1), Err(Error::Reserved));
    assert_eq!(top.len(), 0);

    let mut scoped: Registry<u8> = Registry::new(Some(base("user")));
    assert_eq!(scoped.namespace(), Some(&base("user")));
    assert_eq!(scoped.admits(&id("user/a.git")), Ok(()));
    assert_eq!(scoped.admits(&id("a.git")), Err(Error::Foreign));
    assert_eq!(scoped.admits(&id("other/a.git")), Err(Error::Foreign));
    assert_eq!(scoped.admits(&id("user/?.git")), Err(Error::Reserved));
    assert_eq!(scoped.admits(&id("other/?.git")), Err(Error::Reserved));
    assert_eq!(scoped.insert(id("other/a.git"), 1), Err(Error::Foreign));
    assert_eq!(scoped.insert(id("user/a.git"), 1), Ok(true));
    assert_eq!(scoped.len(), 1);
    assert_eq!(scoped.get(&id("user/a.git")), Some(&1));
    assert_eq!(scoped.get(&id("a.git")), None);
}

#[test]
fn the_origin_declares_top_level_repositories() {
    let mut origin: Origin<&str> = Origin::new();
    assert_eq!(origin.len(), 0);
    assert_eq!(origin.declare(id("project.git"), "a project"), Ok(true));
    assert_eq!(origin.declare(id("project.git"), "the project"), Ok(false));
    assert_eq!(origin.declare(id("alice/project.git"), "hers"), Err(Error::Foreign));
    assert_eq!(origin.declare(Id::origin(), "itself"), Err(Error::Reserved));
    assert_eq!(origin.len(), 1);
    assert_eq!(origin.repository(&id("project.git")), Some(&"the project"));
    assert_eq!(origin.repository(&id("alice/project.git")), None);
    assert_eq!(origin.repository(&id("other.git")), None);
}

#[test]
fn a_namespace_declares_its_own_repositories() {
    let mut alice: Namespace<&str> = Namespace::new(base("alice"), Visibility::Private);
    assert_eq!(alice.namespace(), &base("alice"));
    assert_eq!(alice.visibility(), Visibility::Private);
    assert_eq!(alice.len(), 0);
    assert_eq!(alice.declare(id("alice/project.git"), "hers"), Ok(true));
    assert_eq!(alice.declare(id("bob/project.git"), "his"), Err(Error::Foreign));
    assert_eq!(alice.declare(id("project.git"), "nobody's"), Err(Error::Foreign));
    assert_eq!(alice.declare(id("alice/?.git"), "itself"), Err(Error::Reserved));
    assert_eq!(alice.len(), 1);
    assert_eq!(alice.namespace(), &base("alice"));
    assert_eq!(alice.visibility(), Visibility::Private);
    assert_eq!(alice.repository(&id("alice/project.git")), Some(&"hers"));
    assert_eq!(alice.repository(&id("bob/project.git")), None);
    assert_eq!(alice.repository(&id("project.git")), None);
    let open: Namespace<()> = Namespace::new(base("pub"), Visibility::Public);
    assert_eq!(open.visibility(), Visibility::Public);
}

#[test]
fn the_governing_authority_keeps_the_namespace() {
    let (source, kind) = governing(&id("project.git"));
    assert_eq!(source, Id::origin());
    assert_eq!(kind, Kind::Origin);
    let (source, kind) = governing(&id("alice/project.git"));
    assert_eq!(source, id("alice/?.git"));
    assert_eq!(kind, Kind::Namespace);
    let (source, kind) = governing(&id("alice/?.git"));
    assert_eq!(source, id("alice/?.git"));
    assert_eq!(kind, Kind::Namespace);
    let (source, kind) = governing(&Id::origin());
    assert_eq!(source, Id::origin());
    assert_eq!(kind, Kind::Origin);
}

#[test]
fn an_authority_answers_for_its_scope() {
    let mut origin: Origin<u8> = Origin::new();
    origin.declare(id("project.git"), 7).unwrap();
    let origin = Authority::Origin(origin);
    assert!(origin.is_governing(&id("project.git")));
    assert!(origin.is_governing(&id("missing.git")));
    assert!(origin.is_governing(&Id::origin()));
    assert!(!origin.is_governing(&id("alice/project.git")));
    assert_eq!(origin.repository(&id("project.git")), Some(&7));
    assert_eq!(origin.repository(&id("missing.git")), None);

    let mut alice: Namespace<u8> = Namespace::new(base("alice"), Visibility::Public);
    alice.declare(id("alice/project.git"), 9).unwrap();
    let alice = Authority::Namespace(alice);
    assert!(alice.is_governing(&id("alice/project.git")));
    assert!(alice.is_governing(&id("alice/?.git")));
    assert!(!alice.is_governing(&id("bob/project.git")));
    assert!(!alice.is_governing(&id("project.git")));
    assert_eq!(alice.repository(&id("alice/project.git")), Some(&9));
    assert_eq!(alice.repository(&id("alice/other.git")), None);
    assert_eq!(alice.repository(&id("project.git")), None);
}

#[test]
fn the_declared_identifiers_are_listed_once_each() {
    let mut origin: Origin<u8> = Origin::new();
    assert!(origin.ids().is_empty());
    origin.declare(id("a.git"), 1).unwrap();
    origin.declare(id("b.git"), 2).unwrap();
    origin.declare(id("/a.git"), 3).unwrap();
    let mut listed: Vec<String> = origin.ids().iter().map(|id| id.to_string()).collect();
    listed.sort();
    assert_eq!(listed, vec!["a.git", "b.git"]);
    assert_eq!(origin.len(), 2);

    let mut alice: Namespace<u8> = Namespace::new(base("alice"), Visibility::Public);
    alice.declare(id("alice/x.git"), 1).unwrap();
    assert_eq!(alice.ids(), vec![id("alice/x.git")]);

    let mut registry: Registry<u8> = Registry::new(Some(base("bob")));
    registry.insert(id("bob/one.git"), 1).unwrap();
    registry.insert(id("bob/two.git"), 2).unwrap();
    let ids = registry.ids();
    assert_eq!(ids.len(), registry.len());
    for id in &ids {
        assert!(registry.contains(id));
    }
}
