//! Tests for the key-value store: round trips, upsert idempotence, and the
//! non-cascading delete of peers.

use lykin::db::{Database, Peer, Post};

fn peer_key_a() -> String {
    format!("@{}=.ed25519", "A".repeat(43))
}

fn peer_key_b() -> String {
    format!("@{}=.ed25519", "B".repeat(43))
}

fn sample_post(key: &str, text: &str, sequence: u64) -> Post {
    Post::new(
        key.to_string(),
        text.to_string(),
        "17 May 2021".to_string(),
        sequence,
        1621234567,
        Some(text.chars().take(52).collect()),
    )
}

#[test]
fn peer_store_load_round_trip() {
    let mut db = Database::temporary().unwrap();
    let peer = Peer::new(&peer_key_a())
        .set_name("glyph")
        .set_latest_sequence(42);
    db.add_peer(peer.clone()).unwrap();
    let loaded = db.get_peer(&peer_key_a()).unwrap().unwrap();
    assert_eq!(loaded, peer);
    assert_eq!(loaded.name, "glyph");
    assert_eq!(loaded.latest_sequence, 42);
}

#[test]
fn missing_peer_is_none() {
    let db = Database::temporary().unwrap();
    assert_eq!(db.get_peer(&peer_key_a()).unwrap(), None);
}

#[test]
fn post_store_load_round_trip_unicode() {
    let mut db = Database::temporary().unwrap();
    let author = peer_key_a();
    let post = sample_post("%msg1=.sha256", "héllo wörld \u{2713} \u{1F980}", 7);
    db.add_post(&author, post.clone()).unwrap();
    let loaded = db.get_post(&author, "%msg1=.sha256").unwrap().unwrap();
    assert_eq!(loaded, post);
}

#[test]
fn upsert_same_key_keeps_second_write() {
    let mut db = Database::temporary().unwrap();
    let author = peer_key_a();
    let first = sample_post("%msg1=.sha256", "first version", 3);
    let second = sample_post("%msg1=.sha256", "second version", 3);
    db.add_post(&author, first).unwrap();
    db.add_post(&author, second.clone()).unwrap();
    let posts = db.get_posts(&author).unwrap();
    assert_eq!(posts.len(), 1);
    assert_eq!(posts[0], second);
}

#[test]
fn upsert_same_peer_keeps_second_write() {
    let mut db = Database::temporary().unwrap();
    let one = Peer::new(&peer_key_a()).set_name("one");
    let two = Peer::new(&peer_key_a()).set_name("two");
    db.add_peer(one).unwrap();
    db.add_peer(two).unwrap();
    let peers = db.get_peers().unwrap();
    assert_eq!(peers.len(), 1);
    assert_eq!(peers[0].name, "two");
}

#[test]
fn remove_peer_leaves_posts_retrievable() {
    let mut db = Database::temporary().unwrap();
    let author = peer_key_a();
    db.add_peer(Peer::new(&author)).unwrap();
    let post = sample_post("%msg1=.sha256", "kept after unsubscribe", 5);
    db.add_post(&author, post.clone()).unwrap();

    db.remove_peer(&author).unwrap();

    assert_eq!(db.get_peer(&author).unwrap(), None);
    let kept = db.get_post(&author, "%msg1=.sha256").unwrap();
    assert_eq!(kept, Some(post));
}

#[test]
fn posts_are_scoped_to_their_author() {
    let mut db = Database::temporary().unwrap();
    let a = peer_key_a();
    let b = peer_key_b();
    db.add_post(&a, sample_post("%m1=.sha256", "from a", 1)).unwrap();
    db.add_post(&b, sample_post("%m2=.sha256", "from b", 1)).unwrap();
    let posts_a = db.get_posts(&a).unwrap();
    assert_eq!(posts_a.len(), 1);
    assert_eq!(posts_a[0].text, "from a");
    assert_eq!(db.get_post(&a, "%m2=.sha256").unwrap(), None);
}

#[test]
fn batch_insert_stores_every_post() {
    let mut db = Database::temporary().unwrap();
    let author = peer_key_a();
    let batch = vec![
        sample_post("%m1=.sha256", "one", 1),
        sample_post("%m2=.sha256", "two", 2),
        sample_post("%m3=.sha256", "three", 3),
    ];
    db.add_post_batch(&author, batch.clone()).unwrap();
    let mut posts = db.get_posts(&author).unwrap();
    posts.sort_by_key(|p| p.sequence);
    assert_eq!(posts, batch);
}

#[test]
fn remove_post_deletes_only_that_post() {
    let mut db = Database::temporary().unwrap();
    let author = peer_key_a();
    db.add_post(&author, sample_post("%m1=.sha256", "one", 1)).unwrap();
    db.add_post(&author, sample_post("%m2=.sha256", "two", 2)).unwrap();
    db.remove_post(&author, "%m1=.sha256").unwrap();
    assert_eq!(db.get_post(&author, "%m1=.sha256").unwrap(), None);
    assert!(db.get_post(&author, "%m2=.sha256").unwrap().is_some());
}

#[test]
fn unread_count_follows_read_flags() {
    let mut db = Database::temporary().unwrap();
    let author = peer_key_a();
    db.add_post(&author, sample_post("%m1=.sha256", "one", 1)).unwrap();
    db.add_post(&author, sample_post("%m2=.sha256", "two", 2)).unwrap();
    db.add_post(&author, sample_post("%m3=.sha256", "three", 3)).unwrap();
    assert_eq!(db.get_unread_post_count(&author).unwrap(), 3);

    assert!(db.set_post_read(&author, "%m2=.sha256", true).unwrap());
    assert_eq!(db.get_unread_post_count(&author).unwrap(), 2);

    let marked = db.get_post(&author, "%m2=.sha256").unwrap().unwrap();
    assert!(marked.read);
    assert_eq!(marked.text, "two");

    assert!(db.set_post_read(&author, "%m2=.sha256", false).unwrap());
    assert_eq!(db.get_unread_post_count(&author).unwrap(), 3);
}

#[test]
fn set_post_read_on_missing_post_reports_false() {
    let mut db = Database::temporary().unwrap();
    let author = peer_key_a();
    assert!(!db.set_post_read(&author, "%nope=.sha256", true).unwrap());
}

#[test]
fn batch_upsert_reflects_second_write() {
    // Store-level upsert semantics: a batch write overwrites the whole
    // record, so the stored record reflects the second write exactly. It
    // is the worker, one layer up, that merges the stored read flag into
    // a re-fetched post before writing (see the worker tests).
    let mut db = Database::temporary().unwrap();
    let author = peer_key_a();
    db.add_post(&author, sample_post("%m1=.sha256", "one", 1)).unwrap();
    assert!(db.set_post_read(&author, "%m1=.sha256", true).unwrap());
    db.add_post_batch(&author, vec![sample_post("%m1=.sha256", "one", 1)])
        .unwrap();
    let post = db.get_post(&author, "%m1=.sha256").unwrap().unwrap();
    assert!(!post.read);
}
