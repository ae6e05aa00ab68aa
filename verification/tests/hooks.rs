use geet::hooks::pre_receive::{Reading, Revision};
use geet::hooks::{Cause, Outcome, PreReceive, RefUpdate};
use geet::repository::id::{Base, Id};
use geet::repository::source::{Authority, Kind, Namespace, Origin, Visibility};

const OLD: &str = "0000000000000000000000000000000000000000";
const NEW: &str = "8d2636a4a4a1f3de3c0c7b9b1a8f4a1c4a0e0f11";
const MAIN: &str = "refs/heads/main";
const SCRATCH: &str = "refs/heads/scratch";

fn id(path: &str) -> Id {
    Id::from_str(path).unwrap()
}

fn hook(path: &str) -> PreReceive {
    PreReceive::new(String::from("/srv/geet"), id(path))
}

fn update(refname: &str) -> RefUpdate {
    RefUpdate::from_str(&format!("{OLD} {NEW} {refname}")).unwrap()
}

fn origin(paths: &[&str]) -> Authority<()> {
    let mut origin = Origin::new();
    for path in paths {
        origin.declare(id(path), ()).unwrap();
    }
    Authority::Origin(origin)
}

fn namespace(name: &str, paths: &[&str]) -> Authority<()> {
    let mut namespace = Namespace::new(Base::from_str(name).unwrap(), Visibility::Public);
    for path in paths {
        namespace.declare(id(path), ()).unwrap();
    }
    Authority::Namespace(namespace)
}

#[test]
fn updates_are_three_fields() {
    let update = RefUpdate::from_str(&format!("{OLD} {NEW} {MAIN}")).unwrap();
    assert_eq!(update.oldrev, OLD);
    assert_eq!(update.newrev, NEW);
    assert_eq!(update.refname, MAIN);
    let short = RefUpdate::from_str("a b c").unwrap();
    assert_eq!((short.oldrev.as_str(), short.newrev.as_str(), short.refname.as_str()), ("a", "b", "c"));
}

#[test]
fn malformed_updates_are_refused() {
    for line in [
        "",
        " ",
        "  ",
        "a",
        "a b",
        "a b ",
        " a b",
        "a  b",
        "a b c d",
        "a b c ",
        " a b c",
        "a  b c",
        "a b  c",
        "   ",
    ] {
        assert!(RefUpdate::from_str(line).is_none(), "{line:?}");
    }
}

#[test]
fn a_decodable_authority_is_accepted_silently() {
    let found = origin(&["project.git"]);
    let hook_ = hook("?.git");
    assert_eq!(hook_.receive(&update(MAIN), MAIN, Some(&found)), Outcome::Accept);
    assert_eq!(hook_.receive(&update(SCRATCH), MAIN, Some(&found)), Outcome::Accept);
    let found = namespace("alice", &[]);
    let hook_ = hook("alice/?.git");
    assert_eq!(hook_.receive(&update(MAIN), MAIN, Some(&found)), Outcome::Accept);
    assert_eq!(hook_.receive(&update(SCRATCH), MAIN, Some(&found)), Outcome::Accept);
}

#[test]
fn an_undecodable_authority_is_rejected_on_the_default_branch() {
    let none: Option<&Authority<()>> = None;
    assert_eq!(
        hook("?.git").receive(&update(MAIN), MAIN, none),
        Outcome::Reject(Cause::Undecodable)
    );
    assert_eq!(
        hook("alice/?.git").receive(&update(MAIN), MAIN, none),
        Outcome::Reject(Cause::Undecodable)
    );
    assert_eq!(
        hook("?.git").receive(&update("refs/heads/trunk"), "refs/heads/trunk", none),
        Outcome::Reject(Cause::Undecodable)
    );
}

#[test]
fn an_undecodable_authority_is_warned_about_on_another_branch() {
    let none: Option<&Authority<()>> = None;
    assert_eq!(
        hook("?.git").receive(&update(SCRATCH), MAIN, none),
        Outcome::Warn(Cause::Undecodable)
    );
    assert_eq!(
        hook("alice/?.git").receive(&update(SCRATCH), MAIN, none),
        Outcome::Warn(Cause::Undecodable)
    );
    assert_eq!(
        hook("alice/?.git").receive(&update(MAIN), "refs/heads/trunk", none),
        Outcome::Warn(Cause::Undecodable)
    );
}

#[test]
fn namespace_authority_with_a_broken_registry() {
    let hook_ = hook("alice/?.git");
    let none: Option<Authority<()>> = None;
    assert_eq!(
        hook_.run(MAIN, &vec![(update(MAIN), none)]),
        Outcome::Reject(Cause::Undecodable)
    );
    let none: Option<Authority<()>> = None;
    assert_eq!(
        hook_.run(MAIN, &vec![(update(SCRATCH), none)]),
        Outcome::Warn(Cause::Undecodable)
    );
}

#[test]
fn a_registry_of_the_wrong_authority_does_not_count() {
    let wrong = namespace("bob", &[]);
    assert_eq!(
        hook("alice/?.git").receive(&update(MAIN), MAIN, Some(&wrong)),
        Outcome::Reject(Cause::Undecodable)
    );
    let wrong = origin(&[]);
    assert_eq!(
        hook("alice/?.git").receive(&update(SCRATCH), MAIN, Some(&wrong)),
        Outcome::Warn(Cause::Undecodable)
    );
    let wrong = namespace("alice", &[]);
    assert_eq!(
        hook("?.git").receive(&update(MAIN), MAIN, Some(&wrong)),
        Outcome::Reject(Cause::Undecodable)
    );
}

#[test]
fn a_plain_repository_has_to_be_registered() {
    let found = origin(&["project.git"]);
    assert_eq!(hook("project.git").receive(&update(MAIN), MAIN, Some(&found)), Outcome::Accept);
    assert_eq!(hook("project.git").receive(&update(SCRATCH), MAIN, Some(&found)), Outcome::Accept);
    assert_eq!(
        hook("other.git").receive(&update(MAIN), MAIN, Some(&found)),
        Outcome::Reject(Cause::Unregistered)
    );
    assert_eq!(
        hook("other.git").receive(&update(SCRATCH), MAIN, Some(&found)),
        Outcome::Reject(Cause::Unregistered)
    );
    let found = namespace("alice", &["alice/project.git"]);
    assert_eq!(
        hook("alice/project.git").receive(&update(MAIN), MAIN, Some(&found)),
        Outcome::Accept
    );
    assert_eq!(
        hook("alice/other.git").receive(&update(MAIN), MAIN, Some(&found)),
        Outcome::Reject(Cause::Unregistered)
    );
}

#[test]
fn a_plain_repository_needs_its_governing_authority() {
    let none: Option<&Authority<()>> = None;
    assert_eq!(
        hook("project.git").receive(&update(MAIN), MAIN, none),
        Outcome::Reject(Cause::Unreadable)
    );
    assert_eq!(
        hook("alice/project.git").receive(&update(SCRATCH), MAIN, none),
        Outcome::Reject(Cause::Unreadable)
    );
    let wrong = origin(&["project.git"]);
    assert_eq!(
        hook("alice/project.git").receive(&update(MAIN), MAIN, Some(&wrong)),
        Outcome::Reject(Cause::Unreadable)
    );
    let wrong = namespace("bob", &["bob/project.git"]);
    assert_eq!(
        hook("alice/project.git").receive(&update(MAIN), MAIN, Some(&wrong)),
        Outcome::Reject(Cause::Unreadable)
    );
}

#[test]
fn what_has_to_be_read() {
    let Reading { repository, kind, revision } = hook("?.git").reading();
    assert_eq!((repository, kind, revision), (Id::origin(), Kind::Origin, Revision::Pushed));
    let Reading { repository, kind, revision } = hook("alice/?.git").reading();
    assert_eq!((repository, kind, revision), (id("alice/?.git"), Kind::Namespace, Revision::Pushed));
    let Reading { repository, kind, revision } = hook("project.git").reading();
    assert_eq!((repository, kind, revision), (Id::origin(), Kind::Origin, Revision::Head));
    let Reading { repository, kind, revision } = hook("alice/project.git").reading();
    assert_eq!((repository, kind, revision), (id("alice/?.git"), Kind::Namespace, Revision::Head));
}

#[test]
fn the_hook_keeps_its_parameters() {
    let hook_ = hook("alice/project.git");
    assert_eq!(hook_.storage(), "/srv/geet");
    assert_eq!(hook_.id(), &id("alice/project.git"));
    assert_eq!(hook_.id().to_path(hook_.storage()), "/srv/geet/alice/project.git");
}

#[test]
fn the_worse_outcome_wins_and_the_first_of_them() {
    let accept = Outcome::Accept;
    let warn = Outcome::Warn(Cause::Undecodable);
    let reject = Outcome::Reject(Cause::Undecodable);
    let other = Outcome::Reject(Cause::Unregistered);
    assert_eq!(accept.and(accept), accept);
    assert_eq!(accept.and(warn), warn);
    assert_eq!(warn.and(accept), warn);
    assert_eq!(accept.and(reject), reject);
    assert_eq!(warn.and(reject), reject);
    assert_eq!(reject.and(warn), reject);
    assert_eq!(reject.and(accept), reject);
    assert_eq!(reject.and(other), reject);
    assert_eq!(other.and(reject), other);
    assert_eq!(warn.and(Outcome::Warn(Cause::Unreadable)), warn);
    assert!(reject.is_final());
    assert!(!warn.is_final());
    assert!(!accept.is_final());
}

#[test]
fn an_empty_push_is_accepted() {
    let updates: Vec<(RefUpdate, Option<Authority<()>>)> = Vec::new();
    assert_eq!(hook("?.git").run(MAIN, &updates), Outcome::Accept);
    assert_eq!(hook("project.git").run(MAIN, &updates), Outcome::Accept);
}

#[test]
fn a_push_is_as_bad_as_its_worst_update() {
    let hook_ = hook("?.git");
    let all_good = vec![
        (update(MAIN), Some(origin(&[]))),
        (update(SCRATCH), Some(origin(&["a.git"]))),
    ];
    assert_eq!(hook_.run(MAIN, &all_good), Outcome::Accept);
    let warned = vec![
        (update(MAIN), Some(origin(&[]))),
        (update(SCRATCH), None),
        (update("refs/heads/other"), Some(origin(&[]))),
    ];
    assert_eq!(hook_.run(MAIN, &warned), Outcome::Warn(Cause::Undecodable));
    let rejected = vec![
        (update(SCRATCH), None),
        (update(MAIN), None),
        (update("refs/heads/other"), Some(origin(&[]))),
    ];
    assert_eq!(hook_.run(MAIN, &rejected), Outcome::Reject(Cause::Undecodable));
    let rejected_first: Vec<(RefUpdate, Option<Authority<()>>)> =
        vec![(update(MAIN), None), (update(SCRATCH), None)];
    assert_eq!(hook_.run(MAIN, &rejected_first), Outcome::Reject(Cause::Undecodable));
}

#[test]
fn a_push_to_a_plain_repository() {
    let hook_ = hook("alice/project.git");
    let good = vec![
        (update(MAIN), Some(namespace("alice", &["alice/project.git"]))),
        (update(SCRATCH), Some(namespace("alice", &["alice/project.git"]))),
    ];
    assert_eq!(hook_.run(MAIN, &good), Outcome::Accept);
    let unregistered = vec![
        (update(MAIN), Some(namespace("alice", &["alice/project.git"]))),
        (update(SCRATCH), Some(namespace("alice", &["alice/other.git"]))),
        (update(MAIN), None),
    ];
    assert_eq!(hook_.run(MAIN, &unregistered), Outcome::Reject(Cause::Unregistered));
    let unreadable: Vec<(RefUpdate, Option<Authority<()>>)> = vec![(update(MAIN), None)];
    assert_eq!(hook_.run(MAIN, &unreadable), Outcome::Reject(Cause::Unreadable));
}
