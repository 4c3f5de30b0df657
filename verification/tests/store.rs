//! The title store: point operations, the checked insertion, listing, and
//! the key codec, run against a real on-disk tree.

use golden_axe::error::Error;
use golden_axe::store::{TitleRecord, TitleStore};

#[test]
fn test_db() {
    let mut store = TitleStore::open("/tmp/test_db").unwrap();

    let record = TitleRecord {
        title: "test".into(),
        chat_id: 1,
        user_id: 2,
    };

    record.insert_into(&mut store).unwrap();

    let record2 = TitleRecord::get_with_id(&store, 1, 2).unwrap().unwrap();
    assert_eq!(record, record2);

    let record3 = TitleRecord::get_with_title(&store, 1, "test").unwrap().unwrap();
    assert_eq!(record, record3);

    record.remove_from(&mut store).unwrap();
    assert_eq!(TitleRecord::get_with_id(&store, 1, 2).unwrap(), None);
}

#[test]
fn test_list_db() {
    let mut store = TitleStore::open("/tmp/test_db").unwrap();

    let r0 = TitleRecord {
        title: "test".into(),
        chat_id: 1,
        user_id: 2,
    };

    let r1 = TitleRecord {
        title: "test".into(),
        chat_id: 1,
        user_id: 3,
    };

    let r2 = TitleRecord {
        title: "test".into(),
        chat_id: 1,
        user_id: 4,
    };

    r0.insert_into(&mut store).unwrap();
    r1.insert_into(&mut store).unwrap();
    r2.insert_into(&mut store).unwrap();

    let records = TitleRecord::list_in_chat(&store, 1).unwrap();
    let empty = TitleRecord::list_in_chat(&store, 114_514).unwrap();
    assert_eq!(records, vec![r0, r1, r2]);
    assert!(empty.is_empty());
}

#[test]
fn insert_title_round_trip() {
    let mut store = TitleStore::open("/tmp/golden_axe_round_trip_db").unwrap();

    store.insert_title(10, 77, "Chief").unwrap();

    let by_user = TitleRecord::get_with_id(&store, 10, 77).unwrap().unwrap();
    assert_eq!(by_user.title, "Chief");
    assert_eq!(by_user.chat_id, 10);
    assert_eq!(by_user.user_id, 77);

    let by_title = TitleRecord::get_with_title(&store, 10, "Chief").unwrap().unwrap();
    assert_eq!(by_title.user_id, 77);
    assert_eq!(by_title.chat_id, 10);
}

#[test]
fn insert_title_replaces_own_prior_record() {
    let mut store = TitleStore::open("/tmp/golden_axe_replace_db").unwrap();

    store.insert_title(10, 77, "Scout").unwrap();
    store.insert_title(10, 77, "Captain").unwrap();

    let by_user = TitleRecord::get_with_id(&store, 10, 77).unwrap().unwrap();
    assert_eq!(by_user.title, "Captain");
    assert_eq!(TitleRecord::get_with_title(&store, 10, "Scout").unwrap(), None);
}

#[test]
fn insert_title_conflict_keeps_original() {
    let mut store = TitleStore::open("/tmp/golden_axe_conflict_db").unwrap();

    store.insert_title(20, 1, "Chief").unwrap();
    let denied = store.insert_title(20, 2, "Chief");
    assert_eq!(denied, Err(Error::TitleAlreadyInUse));

    let holder = TitleRecord::get_with_title(&store, 20, "Chief").unwrap().unwrap();
    assert_eq!(holder.user_id, 1);
    let original = TitleRecord::get_with_id(&store, 20, 1).unwrap().unwrap();
    assert_eq!(original.title, "Chief");
    assert_eq!(TitleRecord::get_with_id(&store, 20, 2).unwrap(), None);
}

#[test]
fn remove_by_user_is_idempotent() {
    let mut store = TitleStore::open("/tmp/golden_axe_idempotent_db").unwrap();

    store.insert_title(30, 5, "Herald").unwrap();
    store.remove_by_user(30, 5).unwrap();
    assert_eq!(TitleRecord::get_with_id(&store, 30, 5).unwrap(), None);
    assert_eq!(TitleRecord::get_with_title(&store, 30, "Herald").unwrap(), None);

    store.remove_by_user(30, 5).unwrap();
    assert_eq!(TitleRecord::get_with_id(&store, 30, 5).unwrap(), None);
}

#[test]
fn remove_by_title_drops_both_sides() {
    let mut store = TitleStore::open("/tmp/golden_axe_by_title_db").unwrap();

    store.insert_title(31, 6, "Envoy").unwrap();
    store.remove_by_title(31, "Envoy").unwrap();
    assert_eq!(TitleRecord::get_with_id(&store, 31, 6).unwrap(), None);
    assert_eq!(TitleRecord::get_with_title(&store, 31, "Envoy").unwrap(), None);

    store.remove_by_title(31, "Envoy").unwrap();
}

#[test]
fn list_never_crosses_chats() {
    let mut store = TitleStore::open("/tmp/golden_axe_cross_chat_db").unwrap();

    store.insert_title(1, 100, "alpha").unwrap();
    store.insert_title(11, 101, "beta").unwrap();
    store.insert_title(114, 102, "gamma").unwrap();
    store.insert_title(-5, 103, "delta").unwrap();

    let chat1 = TitleRecord::list_in_chat(&store, 1).unwrap();
    assert_eq!(chat1.len(), 1);
    assert_eq!(chat1[0].chat_id, 1);
    assert_eq!(chat1[0].user_id, 100);

    let chat11 = TitleRecord::list_in_chat(&store, 11).unwrap();
    assert_eq!(chat11.len(), 1);
    assert_eq!(chat11[0].user_id, 101);

    let chat114 = TitleRecord::list_in_chat(&store, 114).unwrap();
    assert_eq!(chat114.len(), 1);
    assert_eq!(chat114[0].user_id, 102);

    let neg = TitleRecord::list_in_chat(&store, -5).unwrap();
    assert_eq!(neg.len(), 1);
    assert_eq!(neg[0].user_id, 103);
}

#[test]
fn extreme_ids_survive_the_codec() {
    let mut store = TitleStore::open("/tmp/golden_axe_extreme_db").unwrap();

    store.insert_title(i64::MIN, u64::MAX, "edge").unwrap();
    let rec = TitleRecord::get_with_id(&store, i64::MIN, u64::MAX).unwrap().unwrap();
    assert_eq!(rec.title, "edge");
    let rev = TitleRecord::get_with_title(&store, i64::MIN, "edge").unwrap().unwrap();
    assert_eq!(rev.user_id, u64::MAX);

    let listed = TitleRecord::list_in_chat(&store, i64::MIN).unwrap();
    assert_eq!(listed.len(), 1);
    assert_eq!(listed[0].user_id, u64::MAX);
}

#[test]
fn unicode_titles_round_trip() {
    let mut store = TitleStore::open("/tmp/golden_axe_unicode_db").unwrap();

    store.insert_title(40, 9, "Häuptling 酋長").unwrap();
    let rec = TitleRecord::get_with_id(&store, 40, 9).unwrap().unwrap();
    assert_eq!(rec.title, "Häuptling 酋長");
    let rev = TitleRecord::get_with_title(&store, 40, "Häuptling 酋長").unwrap().unwrap();
    assert_eq!(rev.user_id, 9);
}

#[test]
fn parse_chat_key_reads_canonical_keys() {
    let rec =
        TitleRecord::parse_chat_key(&b"chat$-100$7"[..], &b"abc"[..]).unwrap();
    assert_eq!(rec.chat_id, -100);
    assert_eq!(rec.user_id, 7);
    assert_eq!(rec.title, "abc");

    assert_eq!(
        TitleRecord::parse_chat_key(&b"garbage"[..], &b"x"[..]),
        Err(Error::BadKey)
    );
    assert_eq!(
        TitleRecord::parse_chat_key(&b"chat$007$5"[..], &b"x"[..]),
        Err(Error::BadKey)
    );
    assert_eq!(
        TitleRecord::parse_chat_key(&b"chat$1$2"[..], &[0xFF][..]),
        Err(Error::BadValue)
    );
}

#[test]
fn open_rejects_an_unusable_path() {
    assert_eq!(
        TitleStore::open("/dev/null/not-a-directory").err(),
        Some(Error::Storage)
    );
}

#[test]
fn record_renders_as_listing_line() {
    let rec = TitleRecord {
        title: "Chief".into(),
        chat_id: 3,
        user_id: 42,
    };
    assert_eq!(rec.render(), "<code>Chief: User(42)</code>");
}

#[test]
fn parse_chat_key_rejects_noncanonical_numbers() {
    assert_eq!(
        TitleRecord::parse_chat_key(&b"chat$-0$5"[..], &b"x"[..]),
        Err(Error::BadKey)
    );
    assert_eq!(
        TitleRecord::parse_chat_key(&b"chat$+5$5"[..], &b"x"[..]),
        Err(Error::BadKey)
    );
    assert_eq!(
        TitleRecord::parse_chat_key(&b"chat$5$"[..], &b"x"[..]),
        Err(Error::BadKey)
    );
}

#[test]
fn long_titles_round_trip() {
    let mut store = TitleStore::open("/tmp/golden_axe_long_title_db").unwrap();
    let long: String = "x".repeat(4000);
    store.insert_title(70, 12, &long).unwrap();
    let rec = TitleRecord::get_with_id(&store, 70, 12).unwrap().unwrap();
    assert_eq!(rec.title, long);
    let rev = TitleRecord::get_with_title(&store, 70, &long).unwrap().unwrap();
    assert_eq!(rev.user_id, 12);
}
