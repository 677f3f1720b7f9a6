//! Tests for the follow decision layer: decoding the gateway's string-typed
//! answers and the idempotence of followIfNotFollowing and
//! unfollowIfFollowing.

use lykin::sbot::{
    follow_decision, parse_follow_response, resolve_name, unfollow_decision, FollowAction,
    FollowStatus, GatewayError,
};

/// A mock gateway follow graph: tracks whether we follow the peer and how
/// many follow/unfollow RPCs were issued.
struct MockGateway {
    following: bool,
    follow_rpcs: usize,
    unfollow_rpcs: usize,
}

impl MockGateway {
    fn status_response(&self) -> &'static str {
        if self.following {
            "true"
        } else {
            "false"
        }
    }

    fn follow_if_not_following(&mut self) -> Result<(), GatewayError> {
        let status = parse_follow_response(self.status_response());
        match follow_decision(&status)? {
            FollowAction::Send => {
                self.follow_rpcs += 1;
                self.following = true;
                Ok(())
            }
            FollowAction::NoOp => Ok(()),
        }
    }

    fn unfollow_if_following(&mut self) -> Result<(), GatewayError> {
        let status = parse_follow_response(self.status_response());
        match unfollow_decision(&status)? {
            FollowAction::Send => {
                self.unfollow_rpcs += 1;
                self.following = false;
                Ok(())
            }
            FollowAction::NoOp => Ok(()),
        }
    }
}

#[test]
fn parses_string_typed_booleans() {
    assert_eq!(parse_follow_response("true"), FollowStatus::Following);
    assert_eq!(parse_follow_response("false"), FollowStatus::NotFollowing);
    assert_eq!(
        parse_follow_response("maybe"),
        FollowStatus::Unknown("maybe".to_string())
    );
    assert_eq!(
        parse_follow_response("True"),
        FollowStatus::Unknown("True".to_string())
    );
    assert_eq!(parse_follow_response(""), FollowStatus::Unknown(String::new()));
}

#[test]
fn unknown_status_never_triggers_blind_follow() {
    let status = parse_follow_response("garbled");
    assert_eq!(follow_decision(&status), Err(GatewayError::FollowCheckFailed));
    assert_eq!(unfollow_decision(&status), Err(GatewayError::FollowCheckFailed));
}

#[test]
fn follow_twice_issues_one_rpc() {
    let mut gateway = MockGateway {
        following: false,
        follow_rpcs: 0,
        unfollow_rpcs: 0,
    };
    gateway.follow_if_not_following().unwrap();
    gateway.follow_if_not_following().unwrap();
    assert_eq!(gateway.follow_rpcs, 1);
    assert!(gateway.following);
}

#[test]
fn unfollow_twice_issues_one_rpc() {
    let mut gateway = MockGateway {
        following: true,
        follow_rpcs: 0,
        unfollow_rpcs: 0,
    };
    gateway.unfollow_if_following().unwrap();
    gateway.unfollow_if_following().unwrap();
    assert_eq!(gateway.unfollow_rpcs, 1);
    assert!(!gateway.following);
}

#[test]
fn resolve_name_falls_back_to_public_key() {
    let key = format!("@{}=.ed25519", "A".repeat(43));
    assert_eq!(resolve_name(&key, Some("glyph".to_string())), "glyph");
    assert_eq!(resolve_name(&key, None), key);
}
