use sbak::config::{Config, Log, LogLevel};
use sbak::entry::{Attributes, DirEntryBuilder, DirHash, FileEntry, FileHash, FsHash, NoIdError, SymlinkEntry};
use sbak::extend::{Extender, FileAction, LeftoverAction};
use sbak::hash::HashID;
use sbak::model::HashId;
use sbak::repo::{
    check_path, is_history_file, tail_histories, verify_object, Bank, BankConfig, DirState, History,
    RepoError, Repository,
};
use sbak::scan::{ScanError, Scanner};
use sbak::timestamp::Timestamp;

fn id_of(data: &[u8]) -> HashID {
    HashID::of_bytes(data)
}

#[test]
fn hash_id_parts_split_4_4_56() {
    let id = id_of(b"hello");
    let (head, mid, leaf) = id.parts();
    assert_eq!((head.len(), mid.len(), leaf.len()), (4, 4, 56));
    assert_eq!(format!("{}{}{}", head, mid, leaf), id.as_str());
    assert_eq!(head, "3338");
}

#[test]
fn hash_id_from_hex_checks_text() {
    let id = id_of(b"x");
    assert_eq!(HashID::from_hex(id.as_str().to_owned()), Some(id.clone()));
    assert_eq!(HashID::from_hex("abc".to_owned()), None);
    assert_eq!(HashID::from_hex(id.as_str().to_uppercase()), None);
}

#[test]
fn broken_object_is_reported() {
    let id = id_of(b"hello");
    match verify_object(&id, b"hellO") {
        Err(RepoError::BrokenObject { to_be, actual }) => {
            assert_eq!(to_be, id);
            assert_eq!(actual, id_of(b"hellO"));
        }
        other => panic!("{:?}", other),
    }
}

#[test]
fn data_model_hex_id() {
    assert_eq!(HashId::from_bytes(&[0x00, 0xab, 0x10]).as_str(), "00ab10");
}

#[test]
fn history_file_name_and_suffix() {
    let h = History::new(Timestamp::from_unix_epoch(1234567890), id_of(b"a"));
    assert_eq!(h.file_name(), "1234567890.history.json");
    let z = History::new(Timestamp::from_unix_epoch(0), id_of(b"a"));
    assert_eq!(z.file_name(), "0.history.json");
    assert!(is_history_file("12.history.json"));
    assert!(!is_history_file("last_scan.json"));
}

#[test]
fn find_hash_keeps_matching_in_order() {
    let a = History::new(Timestamp::from_unix_epoch(1), id_of(b"hello"));
    let b = History::new(Timestamp::from_unix_epoch(2), id_of(b"world"));
    let c = History::new(Timestamp::from_unix_epoch(3), id_of(b"hello"));
    let all = vec![a.clone(), b.clone(), c.clone()];
    assert_eq!(Bank::find_hash(&all, "3338"), vec![a.clone(), c.clone()]);
    assert_eq!(Bank::find_hash(&all, ""), all);
    assert!(Bank::find_hash(&all, "g").is_empty());
    assert_eq!(Bank::select_revision(&all, "3338"), Ok(c.clone()));
    assert_eq!(tail_histories(&all, 2), vec![b, c]);
    assert_eq!(tail_histories(&all, 20).len(), 3);
}

#[test]
fn repository_layout() {
    let repo = Repository::new("/r");
    assert_eq!(repo.object_dir(), "/r/objects");
    assert_eq!(repo.banks_dir(), "/r/banks");
    let id = id_of(b"hello");
    let p = repo.object_path(&id);
    assert_eq!(p, format!("/r/objects/3338/be69/{}", &id.as_str()[8..]));
    let bank = repo.bank("b", BankConfig { target_path: "/src".to_owned() });
    assert_eq!(bank.path(), "/r/banks/b");
    assert_eq!(bank.history_dir(), "/r/banks/b/history");
    assert_eq!(bank.last_scan_file(), "/r/banks/b/last_scan.json");
    assert_eq!(bank.target_path(), "/src");
}

#[test]
fn banks_come_in_name_order() {
    let repo = Repository::new("/r");
    let mut banks = repo.open_all_banks(vec!["z".to_owned(), "a".to_owned(), "m".to_owned()]);
    assert_eq!(banks.next_name(), Some("a".to_owned()));
    assert_eq!(banks.next_name(), Some("m".to_owned()));
    assert_eq!(banks.next_name(), Some("z".to_owned()));
    assert_eq!(banks.next_name(), None);
}

#[test]
fn incomplete_repository() {
    assert_eq!(
        check_path(DirState::Missing, "/banks"),
        Err(RepoError::IncompleteRepo("/banks".to_owned(), "missing".to_owned()))
    );
    assert_eq!(
        check_path(DirState::ReadOnly, "/object"),
        Err(RepoError::IncompleteRepo("/object".to_owned(), "read only".to_owned()))
    );
    assert_eq!(check_path(DirState::Writable, "x"), Ok(()));
}

#[test]
fn children_sorted_by_name_and_found() {
    let mut b = DirEntryBuilder::new(Attributes::new("d".to_owned(), false, Timestamp::from_unix_epoch(0)));
    b.append(FsHash::File(FileHash::new(
        Attributes::new("b".to_owned(), false, Timestamp::from_unix_epoch(1)),
        id_of(b"1"),
    )));
    b.append(FsHash::Dir(DirHash::new(
        Attributes::new("a".to_owned(), true, Timestamp::from_unix_epoch(2)),
        id_of(b"2"),
    )));
    let d = b.build();
    let names: Vec<&str> = d.children().iter().map(|c| c.attr().name()).collect();
    assert_eq!(names, vec!["a", "b"]);
    assert!(d.find_dir("a").is_some());
    assert!(d.find_file("a").is_none());
    assert_eq!(d.find_file("b").unwrap().id(), id_of(b"1"));
    assert!(d.find_child("c").is_none());
    assert_eq!(d.id(), None);
}

#[test]
fn entry_without_id_cannot_be_referenced() {
    let e = FileEntry::new(Attributes::new("f".to_owned(), false, Timestamp::from_unix_epoch(0)));
    assert_eq!(FsHash::try_from_file(e).unwrap_err(), NoIdError::NoId);
    let mut s = SymlinkEntry::new(
        Attributes::new("l".to_owned(), false, Timestamp::from_unix_epoch(0)),
        "target".to_owned(),
        true,
    );
    s.set_id(id_of(b"l"));
    let h = FsHash::try_from_symlink(s).unwrap();
    assert!(DirHash::try_from_hash(h.clone()).is_err());
    assert_eq!(h.id(), id_of(b"l"));
}

#[test]
fn scan_settles_permission_denied() {
    assert!(matches!(Scanner::settle_node(Err(ScanError::PermissionDenied("p".to_owned()))), Ok(None)));
    assert!(Scanner::settle_node(Err(ScanError::IO("e".to_owned()))).is_err());
    assert!(matches!(
        Scanner::attributes("/", None, false, Timestamp::from_unix_epoch(0)),
        Err(ScanError::NameIsEmpty(_))
    ));
}

#[test]
fn extender_policies() {
    let mut ex = Extender::new();
    let a = Attributes::new("f".to_owned(), false, Timestamp::from_unix_epoch(5));
    assert_eq!(ex.file_action(true, Some(Timestamp::from_unix_epoch(4)), &a), FileAction::Skip);
    assert_eq!(ex.leftover_action(true, false), LeftoverAction::Keep);
    ex.allow_overwrite(true);
    ex.allow_remove(true);
    assert_eq!(ex.file_action(true, Some(Timestamp::from_unix_epoch(5)), &a), FileAction::Skip);
    assert_eq!(ex.file_action(true, Some(Timestamp::from_unix_epoch(4)), &a), FileAction::Write);
    assert_eq!(ex.leftover_action(true, false), LeftoverAction::RemoveDir);
    assert_eq!(ex.leftover_action(false, true), LeftoverAction::RemoveFile);
    let link = SymlinkEntry::new(a.clone(), "../t".to_owned(), false);
    ex.extend_symlink("/out/f", &link);
    let list = ex.symlinks().list();
    assert_eq!(list.len(), 1);
    assert_eq!((list[0].from(), list[0].to(), list[0].is_dir()), ("/out/f", "../t", false));
}

#[test]
fn config_merge_and_levels() {
    let base = Config::new(Some("/a".to_owned()), Log::new(Some("log.txt".to_owned()), Some(LogLevel::Info)));
    let over = Config::new(None, Log::new(None, Some(LogLevel::Debug)));
    let m = base.merged(&over);
    assert_eq!(m.repository_path(), Some("/a"));
    assert_eq!(m.log().output(), Some("log.txt"));
    assert_eq!(m.log().level(), Some(LogLevel::Debug));
    let mut c = Config::default();
    assert!(c.set_log_level_str("nope").is_err());
    assert_eq!(c.log().level(), None);
    c.set_log_level_str("warn").unwrap();
    assert_eq!(c.log().level(), Some(LogLevel::Warn));
    assert_eq!("off".parse::<LogLevel>().unwrap(), LogLevel::Off);
    assert_eq!(LogLevel::default(), LogLevel::Warn);
}

#[test]
fn timestamp_seconds() {
    let t = Timestamp::from_unix_epoch(42);
    assert_eq!(t.unix_epoch(), 42);
    assert!(Timestamp::now().unwrap().unix_epoch() > 1_500_000_000);
}

#[test]
fn time_before_epoch_is_rejected() {
    let before = std::time::UNIX_EPOCH - std::time::Duration::from_secs(1);
    assert_eq!(
        Timestamp::from_system_time(before),
        Err(sbak::timestamp::TimestampError::NegativeUnixTime)
    );
    let after = std::time::UNIX_EPOCH + std::time::Duration::from_secs(90);
    assert_eq!(Timestamp::from_system_time(after).map(|t| t.unix_epoch()), Ok(90));
}

#[test]
fn leftovers_are_entries_missing_from_snapshot() {
    let mut b = DirEntryBuilder::new(Attributes::new("d".to_owned(), false, Timestamp::from_unix_epoch(0)));
    b.append(FsHash::File(FileHash::new(
        Attributes::new("kept".to_owned(), false, Timestamp::from_unix_epoch(1)),
        id_of(b"1"),
    )));
    let dir = b.build();
    let found = vec![
        sbak::extend::Found { name: "extra".to_owned(), is_dir: true, is_file: false },
        sbak::extend::Found { name: "kept".to_owned(), is_dir: false, is_file: true },
        sbak::extend::Found { name: "old.txt".to_owned(), is_dir: false, is_file: true },
    ];
    let mut ex = Extender::new();
    assert_eq!(
        ex.leftovers(&dir, &found),
        vec![("extra".to_owned(), LeftoverAction::Keep), ("old.txt".to_owned(), LeftoverAction::Keep)]
    );
    ex.allow_remove(true);
    assert_eq!(
        ex.leftovers(&dir, &found),
        vec![("extra".to_owned(), LeftoverAction::RemoveDir), ("old.txt".to_owned(), LeftoverAction::RemoveFile)]
    );
}

#[test]
fn epoch_seconds_to_timestamp() {
    assert_eq!(Timestamp::from_epoch_secs(Some(7)).map(|t| t.unix_epoch()), Ok(7));
    assert_eq!(
        Timestamp::from_epoch_secs(None),
        Err(sbak::timestamp::TimestampError::NegativeUnixTime)
    );
}
