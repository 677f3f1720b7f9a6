//! Tests for the task queue worker: sequential ordering, cancellation,
//! watermark maintenance, and the end-to-end fetch scenario.

use lykin::db::{Database, Peer};
use lykin::sbot::{GatewayError, RawMessage};
use lykin::task_loop::{GatewayRequest, Task, Worker};

fn peer_a() -> String {
    format!("@{}=.ed25519", "A".repeat(43))
}

fn peer_b() -> String {
    format!("@{}=.ed25519", "B".repeat(43))
}

fn post_message(key: &str, sequence: u64) -> Result<RawMessage, GatewayError> {
    Ok(RawMessage {
        key: key.to_string(),
        sequence,
        timestamp_millis: 1621234567890,
        is_post_type: true,
        has_root: false,
        text: Some(format!("post {}", sequence)),
    })
}

fn reply_message(key: &str, sequence: u64) -> Result<RawMessage, GatewayError> {
    Ok(RawMessage {
        key: key.to_string(),
        sequence,
        timestamp_millis: 1621234567890,
        is_post_type: true,
        has_root: true,
        text: Some("a reply".to_string()),
    })
}

#[test]
fn fetch_all_posts_scenario() {
    // A peer with no prior posts; a stream of three posts (sequences 5, 7,
    // 9) and one reply (sequence 8) yields exactly three stored posts and a
    // watermark of 9.
    let mut db = Database::temporary().unwrap();
    db.add_peer(Peer::new(&peer_a())).unwrap();
    let mut worker = Worker::new(db);

    let request = worker.on_task(&Task::FetchAllPosts(peer_a())).unwrap();
    let after = match request {
        Some(GatewayRequest::HistoryStream {
            ref peer_id,
            after_sequence,
        }) => {
            assert_eq!(peer_id, &peer_a());
            after_sequence
        }
        _ => panic!("expected a history-stream request"),
    };
    assert_eq!(after, 0);

    let items = vec![
        post_message("%p1", 5),
        post_message("%p2", 7),
        reply_message("%r1", 8),
        post_message("%p3", 9),
    ];
    worker.on_history_result(&peer_a(), &items).unwrap();

    let db = worker.database();
    assert_eq!(db.get_posts(&peer_a()).unwrap().len(), 3);
    assert_eq!(db.get_peer(&peer_a()).unwrap().unwrap().latest_sequence, 9);
}

#[test]
fn watermark_never_decreases() {
    let mut db = Database::temporary().unwrap();
    db.add_peer(Peer::new(&peer_a())).unwrap();
    let mut worker = Worker::new(db);

    worker
        .on_history_result(&peer_a(), &vec![post_message("%p1", 5)])
        .unwrap();
    assert_eq!(
        worker.database().get_peer(&peer_a()).unwrap().unwrap().latest_sequence,
        5
    );

    // An empty follow-up fetch (the gateway is already caught up) must not
    // reset the watermark.
    worker.on_history_result(&peer_a(), &Vec::new()).unwrap();
    assert_eq!(
        worker.database().get_peer(&peer_a()).unwrap().unwrap().latest_sequence,
        5
    );

    // A later fetch with higher sequences advances it; out-of-range
    // leftovers below the watermark are ingested but never lower it.
    worker
        .on_history_result(&peer_a(), &vec![post_message("%p2", 9), post_message("%p1", 5)])
        .unwrap();
    assert_eq!(
        worker.database().get_peer(&peer_a()).unwrap().unwrap().latest_sequence,
        9
    );

    // The next incremental fetch resumes after the stored watermark.
    match worker.on_task(&Task::FetchLatestPosts(peer_a())).unwrap() {
        Some(GatewayRequest::HistoryStream { after_sequence, .. }) => {
            assert_eq!(after_sequence, 9)
        }
        _ => panic!("expected a history-stream request"),
    }
}

#[test]
fn fetch_latest_for_unknown_peer_is_noop() {
    let db = Database::temporary().unwrap();
    let mut worker = Worker::new(db);
    assert!(worker.on_task(&Task::FetchLatestPosts(peer_a())).unwrap().is_none());
}

#[test]
fn unsubscribed_mid_flight_skips_watermark_update() {
    // The fetch completes after the peer record is gone: posts are stored,
    // no peer record reappears.
    let db = Database::temporary().unwrap();
    let mut worker = Worker::new(db);
    worker
        .on_history_result(&peer_a(), &vec![post_message("%p1", 5)])
        .unwrap();
    assert!(worker.database().get_peer(&peer_a()).unwrap().is_none());
    assert_eq!(worker.database().get_posts(&peer_a()).unwrap().len(), 1);
}

#[test]
fn name_refresh_updates_only_existing_peer() {
    let mut db = Database::temporary().unwrap();
    db.add_peer(Peer::new(&peer_a()).set_latest_sequence(4)).unwrap();
    let mut worker = Worker::new(db);

    match worker.on_task(&Task::FetchLatestName(peer_a())).unwrap() {
        Some(GatewayRequest::PeerName { ref peer_id }) => assert_eq!(peer_id, &peer_a()),
        _ => panic!("expected a name request"),
    }
    worker
        .on_name_result(&peer_a(), Ok("glyph".to_string()))
        .unwrap();
    let stored = worker.database().get_peer(&peer_a()).unwrap().unwrap();
    assert_eq!(stored.name, "glyph");
    assert_eq!(stored.latest_sequence, 4);

    // A gateway failure is logged and dropped: the record stays as it was.
    worker
        .on_name_result(&peer_a(), Err(GatewayError::Rpc("unreachable".to_string())))
        .unwrap();
    assert_eq!(worker.database().get_peer(&peer_a()).unwrap().unwrap().name, "glyph");

    // A name for a peer that is not stored is dropped.
    worker
        .on_name_result(&peer_b(), Ok("stranger".to_string()))
        .unwrap();
    assert!(worker.database().get_peer(&peer_b()).unwrap().is_none());
}

#[test]
fn tasks_execute_one_at_a_time_in_submission_order() {
    // Enqueue FetchLatestName(A), FetchAllPosts(B), FetchLatestName(A): the
    // two name refreshes for A are separated by B's full post fetch
    // completing.
    let mut db = Database::temporary().unwrap();
    db.add_peer(Peer::new(&peer_a())).unwrap();
    db.add_peer(Peer::new(&peer_b())).unwrap();
    let mut worker = Worker::new(db);

    let queue = vec![
        Task::FetchLatestName(peer_a()),
        Task::FetchAllPosts(peer_b()),
        Task::FetchLatestName(peer_a()),
    ];
    let mut log: Vec<String> = Vec::new();
    for task in &queue {
        // The worker hands back at most one request per task, and the next
        // task is not consumed until that request completed.
        match worker.on_task(task).unwrap() {
            Some(GatewayRequest::PeerName { peer_id }) => {
                let n = log.len();
                worker
                    .on_name_result(&peer_id, Ok(format!("name-{}", n)))
                    .unwrap();
                log.push(format!("name {}", peer_id));
            }
            Some(GatewayRequest::HistoryStream { peer_id, .. }) => {
                worker
                    .on_history_result(&peer_id, &vec![post_message("%pb1", 2)])
                    .unwrap();
                log.push(format!("history {}", peer_id));
            }
            None => log.push("noop".to_string()),
        }
    }

    assert_eq!(
        log,
        vec![
            format!("name {}", peer_a()),
            format!("history {}", peer_b()),
            format!("name {}", peer_a()),
        ]
    );
    // B's fetch finished between the two name refreshes: by the time the
    // second one ran, its posts and watermark were already stored, and the
    // second refresh overwrote the first one's name.
    assert_eq!(worker.database().get_peer(&peer_b()).unwrap().unwrap().latest_sequence, 2);
    assert_eq!(worker.database().get_peer(&peer_a()).unwrap().unwrap().name, "name-2");
}

#[test]
fn cancel_stops_the_worker_for_good() {
    let mut db = Database::temporary().unwrap();
    db.add_peer(Peer::new(&peer_a())).unwrap();
    let mut worker = Worker::new(db);
    assert!(!worker.is_stopped());

    assert!(worker.on_task(&Task::Cancel).unwrap().is_none());
    assert!(worker.is_stopped());

    // Tasks enqueued behind the cancel are abandoned: they produce no
    // request and touch nothing.
    assert!(worker.on_task(&Task::FetchAllPosts(peer_a())).unwrap().is_none());
    assert!(worker.on_task(&Task::FetchLatestName(peer_a())).unwrap().is_none());
    assert!(worker.is_stopped());
    assert_eq!(worker.database().get_posts(&peer_a()).unwrap().len(), 0);
    assert_eq!(worker.database().get_peer(&peer_a()).unwrap().unwrap().name, "");
}

#[test]
fn refetch_preserves_read_state() {
    // The sync path never mutates read state: a post already stored and
    // marked read keeps its flag when a later fetch returns the same key,
    // while a key seen for the first time starts unread.
    let mut db = Database::temporary().unwrap();
    db.add_peer(Peer::new(&peer_a())).unwrap();
    let mut worker = Worker::new(db);
    worker
        .on_history_result(&peer_a(), &vec![post_message("%p1", 5)])
        .unwrap();

    // Mark the stored post as read through the explicit operation, then
    // hand the store back to a worker for the re-fetch.
    let mut db = worker.into_database();
    assert!(db.set_post_read(&peer_a(), "%p1", true).unwrap());
    let mut worker = Worker::new(db);

    // A fetch may replay messages at or below the watermark; here it
    // replays the old message and brings one new post.
    let items = vec![post_message("%p1", 5), post_message("%p2", 6)];
    worker.on_history_result(&peer_a(), &items).unwrap();

    let db = worker.database();
    let replayed = db.get_post(&peer_a(), "%p1").unwrap().unwrap();
    assert!(replayed.read);
    let fresh = db.get_post(&peer_a(), "%p2").unwrap().unwrap();
    assert!(!fresh.read);
    assert_eq!(db.get_unread_post_count(&peer_a()).unwrap(), 1);
    assert_eq!(db.get_peer(&peer_a()).unwrap().unwrap().latest_sequence, 6);
}
