//! Tests for the stream filter: root-post selection, subject truncation,
//! date derivation, and the watermark.

use lykin::sbot::{get_root_posts, GatewayError, RawMessage};

fn message(key: &str, sequence: u64, is_post_type: bool, has_root: bool, text: &str) -> RawMessage {
    RawMessage {
        key: key.to_string(),
        sequence,
        timestamp_millis: 1621234567890,
        is_post_type,
        has_root,
        text: Some(text.to_string()),
    }
}

#[test]
fn keeps_only_root_posts_in_arrival_order() {
    let items: Vec<Result<RawMessage, GatewayError>> = vec![
        Ok(message("%p1", 5, true, false, "first post")),
        Ok(message("%v1", 6, false, false, "a vote")),
        Ok(message("%r1", 8, true, true, "a reply")),
        Ok(message("%p2", 7, true, false, "second post")),
        Err(GatewayError::Rpc("broken element".to_string())),
        Ok(message("%p3", 9, true, false, "third post")),
    ];
    let (max_sequence, posts) = get_root_posts(&items);
    let keys: Vec<&str> = posts.iter().map(|p| p.key.as_str()).collect();
    assert_eq!(keys, vec!["%p1", "%p2", "%p3"]);
    assert_eq!(max_sequence, 9);
    assert!(posts.iter().all(|p| !p.read));
}

#[test]
fn non_posts_and_replies_do_not_advance_watermark() {
    let items: Vec<Result<RawMessage, GatewayError>> = vec![
        Ok(message("%p1", 3, true, false, "a post")),
        Ok(message("%r1", 50, true, true, "a reply with a high sequence")),
        Ok(message("%v1", 60, false, false, "a vote with a higher one")),
    ];
    let (max_sequence, posts) = get_root_posts(&items);
    assert_eq!(posts.len(), 1);
    assert_eq!(max_sequence, 3);
}

#[test]
fn empty_stream_yields_zero_watermark() {
    let items: Vec<Result<RawMessage, GatewayError>> = Vec::new();
    let (max_sequence, posts) = get_root_posts(&items);
    assert_eq!(max_sequence, 0);
    assert!(posts.is_empty());
}

#[test]
fn errors_are_skipped_not_fatal() {
    let items: Vec<Result<RawMessage, GatewayError>> = vec![
        Err(GatewayError::Rpc("first".to_string())),
        Err(GatewayError::UnrecognizedResponse("maybe".to_string())),
        Ok(message("%p1", 2, true, false, "survives")),
        Err(GatewayError::FollowCheckFailed),
    ];
    let (max_sequence, posts) = get_root_posts(&items);
    assert_eq!(posts.len(), 1);
    assert_eq!(posts[0].key, "%p1");
    assert_eq!(max_sequence, 2);
}

#[test]
fn subject_is_none_for_empty_text() {
    let mut msg = message("%p1", 1, true, false, "");
    msg.text = None;
    let (_, posts) = get_root_posts(&vec![Ok(msg)]);
    assert_eq!(posts[0].text, "");
    assert_eq!(posts[0].subject, None);

    let empty = message("%p2", 2, true, false, "");
    let (_, posts) = get_root_posts(&vec![Ok(empty)]);
    assert_eq!(posts[0].subject, None);
}

#[test]
fn subject_keeps_short_text_whole() {
    let text = "a".repeat(52);
    let (_, posts) = get_root_posts(&vec![Ok(message("%p1", 1, true, false, &text))]);
    assert_eq!(posts[0].subject.as_deref(), Some(text.as_str()));
}

#[test]
fn subject_truncates_to_52_characters() {
    let text = "b".repeat(53);
    let (_, posts) = get_root_posts(&vec![Ok(message("%p1", 1, true, false, &text))]);
    assert_eq!(posts[0].subject.as_deref(), Some("b".repeat(52).as_str()));
    assert_eq!(posts[0].text, text);
}

#[test]
fn date_is_derived_from_timestamp() {
    // 1621234567890 ms -> 1621234567 s -> 17 May 2021 (UTC).
    let (_, posts) = get_root_posts(&vec![Ok(message("%p1", 1, true, false, "hi"))]);
    assert_eq!(posts[0].timestamp, 1621234567);
    assert_eq!(posts[0].date, "17 May 2021");
}

#[test]
fn millisecond_truncation_rounds_toward_zero() {
    let mut msg = message("%p1", 1, true, false, "hi");
    msg.timestamp_millis = 1999;
    let (_, posts) = get_root_posts(&vec![Ok(msg)]);
    assert_eq!(posts[0].timestamp, 1);

    let mut msg = message("%p2", 2, true, false, "hi");
    msg.timestamp_millis = -1999;
    let (_, posts) = get_root_posts(&vec![Ok(msg)]);
    assert_eq!(posts[0].timestamp, -1);
}
