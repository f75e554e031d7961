use sha3::Digest;

use sbak::entry::{Attributes, DirEntryBuilder, FsHash};
use sbak::extend::{Extender, FileAction};
use sbak::hash::HashID;
use sbak::ignore::IgnoreStack;
use sbak::parser::parse;
use sbak::pattern::Patterns;
use sbak::repo::{sort_histories, verify_object, Bank, History, RevisionError};
use sbak::scan::Scanner;
use sbak::timestamp::Timestamp;

fn sha3_hex(data: &[u8]) -> String {
    hex::encode(sha3::Sha3_256::digest(data))
}

fn attr(name: &str, modified: u64) -> Attributes {
    Attributes::new(name.to_owned(), false, Timestamp::from_unix_epoch(modified))
}

fn snapshot(children: Vec<FsHash>) -> HashID {
    let mut b = DirEntryBuilder::new(attr("S", 10));
    for c in children {
        b.append(c);
    }
    let dir = b.build();
    let mut encoded = Vec::new();
    for c in dir.children() {
        encoded.extend_from_slice(c.attr().name().as_bytes());
        encoded.extend_from_slice(c.id().as_str().as_bytes());
    }
    Scanner::hash_dir(&dir, &encoded).id()
}

#[test]
fn first_backup_records_one_history() {
    let file = Scanner::hash_file(attr("a.txt", 100), b"hello");
    assert_eq!(file.id().as_str(), sha3_hex(b"hello"));
    assert_eq!(
        file.id().as_str(),
        "3338be694f50c5f338814986cdf0686453a888b84f424d792af4b9202398f392"
    );
    assert!(verify_object(&file.id(), b"hello").is_ok());
    let root = snapshot(vec![file]);
    let h = History::new(Timestamp::from_unix_epoch(1000), root.clone());
    let all = sort_histories(vec![h.clone()]);
    assert_eq!(all, vec![h]);
}

#[test]
fn unchanged_backup_reuses_everything() {
    let first = Scanner::hash_file(attr("a.txt", 100), b"hello");
    let root1 = snapshot(vec![first.clone()]);
    let reused = Scanner::reuse_file(Some(&first), &attr("a.txt", 100)).unwrap();
    assert_eq!(reused, first);
    let root2 = snapshot(vec![reused]);
    assert_eq!(root1, root2);
    let h1 = History::new(Timestamp::from_unix_epoch(1000), root1);
    let h2 = History::new(Timestamp::from_unix_epoch(2000), root2);
    assert!(h2.timestamp() > h1.timestamp());
    assert_eq!(h1.id(), h2.id());
}

#[test]
fn modified_file_gets_new_object() {
    let first = Scanner::hash_file(attr("a.txt", 100), b"hello");
    let root1 = snapshot(vec![first.clone()]);
    assert!(Scanner::reuse_file(Some(&first), &attr("a.txt", 200)).is_none());
    let second = Scanner::hash_file(attr("a.txt", 200), b"world");
    assert_eq!(second.id().as_str(), sha3_hex(b"world"));
    assert_ne!(second.id(), first.id());
    let root2 = snapshot(vec![second]);
    assert_ne!(root1, root2);
}

fn two_histories() -> (History, History) {
    let first = Scanner::hash_file(attr("a.txt", 100), b"hello");
    let second = Scanner::hash_file(attr("a.txt", 200), b"world");
    let h1 = History::new(Timestamp::from_unix_epoch(1000), snapshot(vec![first]));
    let h2 = History::new(Timestamp::from_unix_epoch(3000), snapshot(vec![second]));
    (h1, h2)
}

#[test]
fn restore_by_prefix_picks_first_snapshot() {
    let (h1, h2) = two_histories();
    let all = sort_histories(vec![h2.clone(), h1.clone()]);
    let prefix = &h1.id().as_str()[..8];
    assert_eq!(Bank::select_revision(&all, prefix), Ok(h1.clone()));
    let ex = Extender::new();
    let a = attr("a.txt", 100);
    assert_eq!(ex.file_action(false, None, &a), FileAction::Write);
    assert_eq!(Bank::select_revision(&all, "zz"), Err(RevisionError::NoMatch));
}

#[test]
fn restore_without_revision_uses_latest() {
    let (h1, h2) = two_histories();
    let all = sort_histories(vec![h2.clone(), h1.clone()]);
    assert_eq!(all.last(), Some(&h2));
    assert_eq!(Bank::select_revision(&all, ""), Err(RevisionError::Ambiguous(h1.id().clone(), h2.id().clone())));
}

#[test]
fn sbakignore_excludes_log_files() {
    let root = IgnoreStack::new("/S", Patterns::empty());
    let top = root.child("S", parse("*.log").unwrap());
    assert!(top.ignored("/S/x.log", false).unwrap());
    assert!(!top.ignored("/S/a.txt", false).unwrap());
    assert!(!top.ignored("/S/.sbakignore", false).unwrap());
}

#[test]
fn enumeration_order_does_not_change_root_id() {
    let a = Scanner::hash_file(attr("a.txt", 1), b"a");
    let b = Scanner::hash_file(attr("b.txt", 2), b"b");
    let c = Scanner::hash_file(attr("c.txt", 3), b"c");
    let r1 = snapshot(vec![a.clone(), b.clone(), c.clone()]);
    let r2 = snapshot(vec![c, a, b]);
    assert_eq!(r1, r2);
}
