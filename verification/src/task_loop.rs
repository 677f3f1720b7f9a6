//! The task queue worker: a state machine that serializes synchronization
//! tasks against the gateway and the store.
//!
//! Tasks execute strictly one at a time, in submission order: the caller
//! owns the queue, hands the worker one task at a time through
//! [`Worker::on_task`], performs the single gateway request the worker asks
//! for, and hands the outcome back through [`Worker::on_history_result`] or
//! [`Worker::on_name_result`]. No other task starts until that exchange is
//! complete, which is what keeps two fetches for one peer from racing on
//! its watermark. After a `Cancel` task the worker is stopped for good:
//! every later task is ignored and asks for nothing.

use vstd::prelude::*;
use crate::codec::spec_encode_peer;
use crate::db::{Database, PeerView, Post, PostView, StoreError, peer_key, posts_as_map};
use crate::sbot::{GatewayError, RawMessage, get_root_posts, spec_max_sequence, spec_root_posts};

verus! {

/// A synchronization task submitted to the worker.
pub enum Task {
    /// Stop the worker; tasks already queued behind this one are abandoned.
    Cancel,
    /// Fetch the full post history of the given peer.
    FetchAllPosts(String),
    /// Fetch only the posts of the given peer that are newer than its
    /// stored watermark.
    FetchLatestPosts(String),
    /// Refresh the display name of the given peer.
    FetchLatestName(String),
}

/// One RPC the worker asks its caller to perform against the gateway.
pub enum GatewayRequest {
    /// Fetch the peer's message stream after the given sequence number and
    /// hand the items to [`Worker::on_history_result`].
    HistoryStream { peer_id: String, after_sequence: u64 },
    /// Fetch the peer's display name and hand the outcome to
    /// [`Worker::on_name_result`].
    PeerName { peer_id: String },
}

/// The watermark after ingesting a fetch: the old value, or the fetch's
/// highest sequence number if that is greater. It never decreases.
pub open spec fn new_watermark(current: u64, fetched: u64) -> u64 {
    if fetched > current {
        fetched
    } else {
        current
    }
}

/// The watermark left after a whole sequence of fetches, folded in order.
pub open spec fn fold_watermark(initial: u64, fetched: Seq<u64>) -> u64
    decreases fetched.len(),
{
    if fetched.len() == 0 {
        initial
    } else {
        new_watermark(fold_watermark(initial, fetched.drop_last()), fetched.last())
    }
}

/// Watermark monotonicity: over any sequence of fetches on one peer, the
/// watermark after each step is at least its value before, and the final
/// value is the maximum sequence number seen across all fetches so far (or
/// the initial value if no fetch exceeded it). Each successful
/// [`Worker::on_history_result`] advances the stored watermark by exactly
/// one [`new_watermark`] step, so this fold describes any run of fetches.
pub proof fn lemma_watermark_monotonic(initial: u64, fetched: Seq<u64>)
    ensures
        fold_watermark(initial, fetched) >= initial,
        forall|i: int| 0 <= i < fetched.len() ==> fold_watermark(initial, fetched) >= fetched[i],
        fold_watermark(initial, fetched) == initial || exists|i: int|
            0 <= i < fetched.len() && fold_watermark(initial, fetched) == fetched[i],
    decreases fetched.len(),
{
    if fetched.len() > 0 {
        lemma_watermark_monotonic(initial, fetched.drop_last());
        assert forall|i: int| 0 <= i < fetched.len() implies fold_watermark(initial, fetched)
            >= fetched[i] by {
            if i < fetched.len() - 1 {
                assert(fetched.drop_last()[i] == fetched[i]);
            }
        }
    }
}

/// One fetched post as the worker stores it: a record already stored under
/// the same key keeps its read flag (the sync path never mutates read
/// state); a post seen for the first time keeps the fetched record, which
/// starts unread.
pub open spec fn merge_read(db: Database, author: Seq<char>, p: PostView) -> PostView {
    match db.post_at(author, p.key) {
        Some(existing) => PostView { read: existing.read, ..p },
        None => p,
    }
}

/// A whole fetched batch as the worker stores it, read flags merged.
pub open spec fn merge_reads(db: Database, author: Seq<char>, posts: Seq<PostView>) -> Seq<
    PostView,
> {
    posts.map_values(|p: PostView| merge_read(db, author, p))
}

/// The sync path never mutates read state: every record in a merged batch
/// is exactly the fetched post except for its read flag, which is the one
/// already stored for that key — a key seen for the first time keeps the
/// fetched flag, and fetched posts start unread.
pub proof fn lemma_sync_preserves_read(db: Database, author: Seq<char>, posts: Seq<PostView>)
    ensures
        merge_reads(db, author, posts).len() == posts.len(),
        forall|i: int|
            0 <= i < posts.len() ==> {
                let merged = #[trigger] merge_reads(db, author, posts)[i];
                &&& merged.key == posts[i].key
                &&& merged.text == posts[i].text
                &&& merged.date == posts[i].date
                &&& merged.sequence == posts[i].sequence
                &&& merged.timestamp == posts[i].timestamp
                &&& merged.subject == posts[i].subject
                &&& merged.read == match db.post_at(author, posts[i].key) {
                    Some(existing) => existing.read,
                    None => posts[i].read,
                }
            },
{
}

/// The single consumer of the task queue. It owns the store; the caller
/// performs the gateway I/O it requests.
pub struct Worker {
    db: Database,
    stopped: bool,
}

impl Worker {
    /// The store the worker writes to.
    pub closed spec fn spec_db(self) -> Database {
        self.db
    }

    /// Whether the worker has consumed a `Cancel` task.
    pub closed spec fn spec_stopped(self) -> bool {
        self.stopped
    }

    /// A worker starts running, with nothing consumed yet.
    pub fn new(db: Database) -> (w: Worker)
        ensures
            w.spec_db() == db,
            !w.spec_stopped(),
    {
        Worker { db, stopped: false }
    }

    /// Whether the worker has acknowledged termination.
    pub fn is_stopped(&self) -> (r: bool)
        ensures
            r == self.spec_stopped(),
    {
        self.stopped
    }

    /// Read access to the store, for rendering between task executions.
    pub fn database(&self) -> (d: &Database)
        ensures
            *d == self.spec_db(),
    {
        &self.db
    }

    /// Dissolve the worker and hand the store back, for use once it has
    /// acknowledged termination.
    pub fn into_database(self) -> (db: Database)
        ensures
            db == self.spec_db(),
    {
        self.db
    }

    /// Consume one task and decide which gateway request, if any, the
    /// caller must perform for it.
    ///
    /// A stopped worker ignores every task and never changes state or
    /// store: once `Cancel` is consumed, tasks still queued are guaranteed
    /// never to execute. `Cancel` stops the worker. A fetch task asks for
    /// the matching request; `FetchLatestPosts` resumes from the peer's
    /// stored watermark, is a silent no-op exactly when the peer record is
    /// gone, and surfaces a failed or unreadable store read as an error so
    /// the task can be resubmitted. The store itself is never written
    /// here.
    pub fn on_task(&mut self, task: &Task) -> (request: Result<
        Option<GatewayRequest>,
        StoreError,
    >)
        ensures
            final(self).spec_db() == old(self).spec_db(),
            old(self).spec_stopped() ==> *final(self) == *old(self) && request == Ok::<
                Option<GatewayRequest>,
                StoreError,
            >(None),
            !old(self).spec_stopped() ==> match *task {
                Task::Cancel => final(self).spec_stopped() && request == Ok::<
                    Option<GatewayRequest>,
                    StoreError,
                >(None),
                Task::FetchAllPosts(ref peer_id) => !final(self).spec_stopped() && (
                request matches Ok(
                    Some(GatewayRequest::HistoryStream { peer_id: ref p, after_sequence }),
                ) && p@ == peer_id@ && after_sequence == 0),
                Task::FetchLatestPosts(ref peer_id) => !final(self).spec_stopped() && match request {
                    Ok(Some(GatewayRequest::HistoryStream { peer_id: ref p, after_sequence })) => p@
                        == peer_id@ && (old(self).spec_db().peer_at(peer_id@) matches Some(v)
                        && after_sequence == v.latest_sequence),
                    Ok(Some(GatewayRequest::PeerName { .. })) => false,
                    // No request and no error exactly when there is no
                    // record for the peer: the task is a silent no-op.
                    Ok(None) => !old(self).spec_db().peer_map().contains_key(peer_key(peer_id@)),
                    // The store read failed; the task is dropped and can
                    // be resubmitted.
                    Err(_) => true,
                },
                Task::FetchLatestName(ref peer_id) => !final(self).spec_stopped() && (
                request matches Ok(Some(GatewayRequest::PeerName { peer_id: ref p })) && p@
                    == peer_id@),
            },
    {
        if self.stopped {
            return Ok(None);
        }
        match task {
            Task::Cancel => {
                self.stopped = true;
                Ok(None)
            },
            Task::FetchAllPosts(peer_id) => Ok(
                Some(
                    GatewayRequest::HistoryStream { peer_id: peer_id.clone(), after_sequence: 0 },
                ),
            ),
            Task::FetchLatestPosts(peer_id) => match self.db.get_peer(peer_id.as_str()) {
                Ok(Some(peer)) => Ok(
                    Some(
                        GatewayRequest::HistoryStream {
                            peer_id: peer_id.clone(),
                            after_sequence: peer.latest_sequence,
                        },
                    ),
                ),
                Ok(None) => Ok(None),
                Err(e) => Err(e),
            },
            Task::FetchLatestName(peer_id) => Ok(
                Some(GatewayRequest::PeerName { peer_id: peer_id.clone() }),
            ),
        }
    }

    /// Apply the outcome of one history-stream fetch: filter the stream to
    /// its root posts, merge each against the store so that a record
    /// already present keeps its read flag (the sync path never mutates
    /// read state), upsert the merged batch as one unit, and only then
    /// advance the peer's watermark, so that a failure between the steps
    /// can only under-report progress, never lose posts. The watermark
    /// never decreases. If the peer record disappeared mid-flight the
    /// watermark update is silently skipped; a store failure is returned
    /// and the fetch can be retried idempotently.
    #[verifier::loop_isolation(false)]
    pub fn on_history_result(
        &mut self,
        peer_id: &str,
        items: &Vec<Result<RawMessage, GatewayError>>,
    ) -> (r: Result<(), StoreError>)
        ensures
            final(self).spec_stopped() == old(self).spec_stopped(),
            r is Ok ==> final(self).spec_db().post_map() == old(
                self,
            ).spec_db().post_map().union_prefer_right(
                posts_as_map(
                    peer_id@,
                    merge_reads(old(self).spec_db(), peer_id@, spec_root_posts(items@)),
                ),
            ),
            // Write order: the peer tree changes only after the post batch
            // landed, so an interrupted task can under-report progress but
            // never records a watermark for posts that were not stored.
            final(self).spec_db().peer_map() != old(self).spec_db().peer_map()
                ==> final(self).spec_db().post_map() == old(
                self,
            ).spec_db().post_map().union_prefer_right(
                posts_as_map(
                    peer_id@,
                    merge_reads(old(self).spec_db(), peer_id@, spec_root_posts(items@)),
                ),
            ),
            // On failure the watermark is untouched, and at most the
            // fetched keys themselves have changed.
            r is Err ==> final(self).spec_db().peer_map() == old(self).spec_db().peer_map(),
            r is Err ==> final(self).spec_db().post_map().remove_keys(
                posts_as_map(
                    peer_id@,
                    merge_reads(old(self).spec_db(), peer_id@, spec_root_posts(items@)),
                ).dom(),
            ) == old(self).spec_db().post_map().remove_keys(
                posts_as_map(
                    peer_id@,
                    merge_reads(old(self).spec_db(), peer_id@, spec_root_posts(items@)),
                ).dom(),
            ),
            r is Ok ==> match old(self).spec_db().peer_at(peer_id@) {
                None => final(self).spec_db().peer_map() == old(self).spec_db().peer_map(),
                Some(v) => {
                    let updated = PeerView {
                        latest_sequence: new_watermark(
                            v.latest_sequence,
                            spec_max_sequence(items@),
                        ),
                        ..v
                    };
                    &&& final(self).spec_db().peer_map() == old(self).spec_db().peer_map().insert(
                        peer_key(v.public_key),
                        spec_encode_peer(updated),
                    )
                    &&& v.public_key == peer_id@ ==> final(self).spec_db().peer_at(peer_id@)
                        == Some(updated)
                    &&& updated.latest_sequence >= v.latest_sequence
                },
            },
    {
        let ghost f = |p: Post| p@;
        let (latest_sequence, root_posts) = get_root_posts(items);
        let ghost fetched_views = root_posts@.map_values(f);
        let mut merged: Vec<Post> = Vec::new();
        let mut i: usize = 0;
        while i < root_posts.len()
            invariant
                i <= root_posts@.len(),
                merged@.map_values(f) == merge_reads(
                    self.db,
                    peer_id@,
                    fetched_views.take(i as int),
                ),
            decreases root_posts@.len() - i,
        {
            let fetched = &root_posts[i];
            let read = match self.db.get_post(peer_id, fetched.key.as_str()) {
                Ok(Some(existing)) => existing.read,
                Ok(None) => fetched.read,
                Err(e) => {
                    return Err(e);
                },
            };
            let subject = match &fetched.subject {
                Some(subject) => Some(subject.clone()),
                None => None,
            };
            let post = Post {
                key: fetched.key.clone(),
                text: fetched.text.clone(),
                date: fetched.date.clone(),
                sequence: fetched.sequence,
                read,
                timestamp: fetched.timestamp,
                subject,
            };
            proof {
                assert(post@ == merge_read(self.db, peer_id@, fetched_views[i as int]));
            }
            let ghost merged_prev = merged@;
            merged.push(post);
            proof {
                let lhs = merged@.map_values(f);
                let rhs = merge_reads(self.db, peer_id@, fetched_views.take(i + 1int));
                assert forall|j: int| 0 <= j < i + 1 implies lhs[j] == rhs[j] by {
                    if j < i {
                        assert(merged@[j] == merged_prev[j]);
                        assert(merged_prev.map_values(f)[j] == merge_reads(
                            self.db,
                            peer_id@,
                            fetched_views.take(i as int),
                        )[j]);
                        assert(fetched_views.take(i + 1int)[j] == fetched_views.take(i as int)[j]);
                    } else {
                        assert(merged@[j] == post);
                        assert(fetched_views.take(i + 1int)[j] == fetched_views[i as int]);
                    }
                }
                assert(lhs =~= rhs);
            }
            i += 1;
        }
        proof {
            assert(fetched_views.take(fetched_views.len() as int) =~= fetched_views);
        }
        match self.db.add_post_batch(peer_id, merged) {
            Ok(()) => {},
            Err(e) => {
                return Err(e);
            },
        }
        match self.db.get_peer(peer_id) {
            Ok(Some(peer)) => {
                let new_sequence = if latest_sequence > peer.latest_sequence {
                    latest_sequence
                } else {
                    peer.latest_sequence
                };
                match self.db.add_peer(peer.set_latest_sequence(new_sequence)) {
                    Ok(()) => Ok(()),
                    Err(e) => Err(e),
                }
            },
            Ok(None) => Ok(()),
            Err(e) => Err(e),
        }
    }

    /// Apply the outcome of one name fetch: if the gateway answered and the
    /// peer record still exists, store it again with the refreshed name,
    /// leaving every other field unchanged. A gateway failure is dropped
    /// here (the worker never stops because a task failed); a store
    /// failure is returned.
    pub fn on_name_result(&mut self, peer_id: &str, name: Result<String, GatewayError>) -> (r:
        Result<(), StoreError>)
        ensures
            final(self).spec_stopped() == old(self).spec_stopped(),
            final(self).spec_db().post_map() == old(self).spec_db().post_map(),
            r is Err ==> final(self).spec_db().peer_map() == old(self).spec_db().peer_map(),
            name is Err ==> *final(self) == *old(self) && r is Ok,
            name matches Ok(n) ==> match old(self).spec_db().peer_at(peer_id@) {
                None => final(self).spec_db().peer_map() == old(self).spec_db().peer_map(),
                Some(v) => r is Ok ==> {
                    let updated = PeerView { name: n@, ..v };
                    &&& final(self).spec_db().peer_map() == old(self).spec_db().peer_map().insert(
                        peer_key(v.public_key),
                        spec_encode_peer(updated),
                    )
                    &&& v.public_key == peer_id@ ==> final(self).spec_db().peer_at(peer_id@)
                        == Some(updated)
                },
            },
    {
        match name {
            Err(_) => Ok(()),
            Ok(n) => match self.db.get_peer(peer_id) {
                Ok(Some(peer)) => match self.db.add_peer(peer.set_name(n.as_str())) {
                    Ok(()) => Ok(()),
                    Err(e) => Err(e),
                },
                Ok(None) => Ok(()),
                Err(e) => Err(e),
            },
        }
    }
}

} // verus!
