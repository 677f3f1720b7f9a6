//! Peer and post records and the key-value store that holds them.
//!
//! Records are persisted in two sled trees: one for peers, keyed by the
//! peer's public key, and one for posts, keyed by the author's public key,
//! an underscore, and the message key, so that one author's posts form a
//! prefix range. Values are written with the binary record encoding of
//! [`crate::codec`].

use vstd::prelude::*;
use vstd::string::{StrSliceExecFns, StringExecFns};
use vstd::utf8::{decode_utf8, encode_utf8};
use crate::codec::{
    decode_peer, decode_post, encode_peer, encode_post, lemma_encode_utf8_concat,
    lemma_encode_utf8_injective, lemma_peer_round_trip, lemma_post_round_trip,
    lemma_utf8_byte_prefix_is_char_prefix, spec_decode_peer, spec_decode_post, spec_encode_peer,
    spec_encode_post,
};
use crate::utils::is_valid_public_key;
use crate::kv::{
    db_open, db_open_temporary, db_open_tree, tree_apply_writes, tree_entries, tree_get,
    tree_insert, tree_remove, tree_scan_prefix, write_pairs_map,
};

verus! {

/// Scuttlebutt peer data.
#[derive(Clone, Debug, PartialEq)]
pub struct Peer {
    /// The public key identifying the peer.
    pub public_key: String,
    /// The display name of the peer; empty until resolved.
    pub name: String,
    /// The highest sequence number already ingested for this peer.
    pub latest_sequence: u64,
}

/// The mathematical value of a [`Peer`].
pub struct PeerView {
    pub public_key: Seq<char>,
    pub name: Seq<char>,
    pub latest_sequence: u64,
}

impl View for Peer {
    type V = PeerView;

    open spec fn view(&self) -> PeerView {
        PeerView {
            public_key: self.public_key@,
            name: self.name@,
            latest_sequence: self.latest_sequence,
        }
    }
}

impl Peer {
    /// Create a new instance of the Peer struct using the given public
    /// key. Default values are set for name and latest_sequence.
    pub fn new(public_key: &str) -> (peer: Peer)
        ensures
            peer@.public_key == public_key@,
            peer@.name == Seq::<char>::empty(),
            peer@.latest_sequence == 0,
    {
        Peer { public_key: public_key.to_owned(), name: String::new(), latest_sequence: 0 }
    }

    /// Modify the name field of an instance of the Peer struct, leaving
    /// the other values unchanged.
    pub fn set_name(self, name: &str) -> (peer: Peer)
        ensures
            peer@.public_key == self@.public_key,
            peer@.name == name@,
            peer@.latest_sequence == self@.latest_sequence,
    {
        Peer { name: name.to_owned(), ..self }
    }

    /// Modify the latest_sequence field of an instance of the Peer struct,
    /// leaving the other values unchanged.
    pub fn set_latest_sequence(self, latest_sequence: u64) -> (peer: Peer)
        ensures
            peer@.public_key == self@.public_key,
            peer@.name == self@.name,
            peer@.latest_sequence == latest_sequence,
    {
        Peer { latest_sequence, ..self }
    }
}

/// The text and metadata of a Scuttlebutt root post.
#[derive(Clone, Debug, PartialEq)]
pub struct Post {
    /// The key of the post-type message, also known as a message reference.
    pub key: String,
    /// The text of the post (may be formatted as markdown).
    pub text: String,
    /// The date the post was published (e.g. 17 May 2021).
    pub date: String,
    /// The sequence number of the post-type message.
    pub sequence: u64,
    /// The read state of the post; true if read, false if unread.
    pub read: bool,
    /// The timestamp representing the date the post was published.
    pub timestamp: i64,
    /// The subject of the post, represented as the leading characters of
    /// the post text.
    pub subject: Option<String>,
}

/// The mathematical value of a [`Post`].
pub struct PostView {
    pub key: Seq<char>,
    pub text: Seq<char>,
    pub date: Seq<char>,
    pub sequence: u64,
    pub read: bool,
    pub timestamp: i64,
    pub subject: Option<Seq<char>>,
}

impl View for Post {
    type V = PostView;

    open spec fn view(&self) -> PostView {
        PostView {
            key: self.key@,
            text: self.text@,
            date: self.date@,
            sequence: self.sequence,
            read: self.read,
            timestamp: self.timestamp,
            subject: match self.subject {
                Some(s) => Some(s@),
                None => None,
            },
        }
    }
}

impl Post {
    /// Create a new instance of the Post struct. A default value of `false` is
    /// set for `read`.
    pub fn new(
        key: String,
        text: String,
        date: String,
        sequence: u64,
        timestamp: i64,
        subject: Option<String>,
    ) -> (post: Post)
        ensures
            post@.key == key@,
            post@.text == text@,
            post@.date == date@,
            post@.sequence == sequence,
            post@.read == false,
            post@.timestamp == timestamp,
            match subject {
                Some(s) => post@.subject == Some(s@),
                None => post@.subject is None,
            },
    {
        Post { key, text, date, sequence, timestamp, subject, read: false }
    }
}

/// A storage failure.
#[derive(Clone, Copy, Debug, PartialEq, Eq, Structural)]
pub enum StoreError {
    /// The underlying key-value store reported an error.
    Storage,
    /// A stored value is not a well-formed record encoding. This is a
    /// programming-error-class fault: the caller should fail loudly rather
    /// than treat it as missing data.
    InvalidRecord,
}

/// The tree key under which a peer record is stored.
pub open spec fn peer_key(public_key: Seq<char>) -> Seq<u8> {
    encode_utf8(public_key)
}

/// The tree key under which a post record is stored: author, underscore,
/// message key.
pub open spec fn post_key(author: Seq<char>, msg_key: Seq<char>) -> Seq<u8> {
    encode_utf8(author + seq!['_'] + msg_key)
}

/// The key prefix shared by every post of one author.
pub open spec fn post_prefix(author: Seq<char>) -> Seq<u8> {
    encode_utf8(author + seq!['_'])
}

/// The map an author's posts add to the post tree: each post is bound to
/// its key, later entries replacing earlier ones with the same key.
pub open spec fn posts_as_map(author: Seq<char>, posts: Seq<PostView>) -> Map<Seq<u8>, Seq<u8>>
    decreases posts.len(),
{
    if posts.len() == 0 {
        Map::empty()
    } else {
        posts_as_map(author, posts.drop_last()).insert(
            post_key(author, posts.last().key),
            spec_encode_post(posts.last()),
        )
    }
}

/// Every post key of an author lies in that author's prefix range, so a
/// stored post is always found again by the author's listing scan.
pub proof fn lemma_post_key_has_author_prefix(author: Seq<char>, msg_key: Seq<char>)
    ensures
        post_prefix(author).is_prefix_of(post_key(author, msg_key)),
{
    lemma_encode_utf8_concat(author + seq!['_'], msg_key);
    assert((author + seq!['_']) + msg_key =~= author + seq!['_'] + msg_key);
    assert(post_prefix(author) =~= post_key(author, msg_key).subrange(
        0,
        post_prefix(author).len() as int,
    ));
}

/// Two different valid public keys never collide in the post tree: a post
/// stored for one author never appears in another author's prefix range,
/// so `(authorPublicKey, key)` identifies a post uniquely across authors.
pub proof fn lemma_valid_authors_do_not_collide(a1: Seq<char>, a2: Seq<char>, msg_key: Seq<char>)
    requires
        is_valid_public_key(a1),
        is_valid_public_key(a2),
        a1 != a2,
    ensures
        !post_prefix(a1).is_prefix_of(post_key(a2, msg_key)),
{
    broadcast use vstd::utf8::encode_utf8_valid_utf8;
    broadcast use vstd::utf8::encode_utf8_decode_utf8;

    if post_prefix(a1).is_prefix_of(post_key(a2, msg_key)) {
        let p1 = a1 + seq!['_'];
        let w2 = a2 + seq!['_'] + msg_key;
        lemma_utf8_byte_prefix_is_char_prefix(encode_utf8(p1), encode_utf8(w2));
        assert(decode_utf8(encode_utf8(p1)) == p1);
        assert(decode_utf8(encode_utf8(w2)) == w2);
        // Both keys are 53 characters long, so the prefix relation forces
        // the authors to agree character for character.
        assert(p1.is_prefix_of(w2));
        assert forall|i: int| 0 <= i < 53 implies a1[i] == a2[i] by {
            assert(p1[i] == w2.subrange(0, p1.len() as int)[i]);
            assert(w2[i] == a2[i]);
        }
        assert(a1 =~= a2);
    }
}

/// Idempotent upsert: writing a key twice leaves exactly one record, and it
/// holds the second write.
pub proof fn lemma_upsert_idempotent(m: Map<Seq<u8>, Seq<u8>>, k: Seq<u8>, v1: Seq<u8>, v2: Seq<u8>)
    ensures
        m.insert(k, v1).insert(k, v2) == m.insert(k, v2),
{
    assert(m.insert(k, v1).insert(k, v2) =~= m.insert(k, v2));
}

/// An instance of the key-value database and relevant trees.
pub struct Database {
    /// The sled database instance.
    db: sled::Db,
    /// A database tree containing Peer records for all the peers we are
    /// subscribed to.
    peer_tree: sled::Tree,
    /// A database tree containing Post records for all of the posts we have
    /// downloaded from the peers to whom we subscribe.
    post_tree: sled::Tree,
}

impl Database {
    /// The raw bytes the peer tree currently holds.
    pub closed spec fn peer_map(self) -> Map<Seq<u8>, Seq<u8>> {
        tree_entries(self.peer_tree)
    }

    /// The raw bytes the post tree currently holds.
    pub closed spec fn post_map(self) -> Map<Seq<u8>, Seq<u8>> {
        tree_entries(self.post_tree)
    }

    /// The peer record stored for `public_key`, if present and well-formed.
    pub open spec fn peer_at(self, public_key: Seq<char>) -> Option<PeerView> {
        if self.peer_map().contains_key(peer_key(public_key)) {
            spec_decode_peer(self.peer_map()[peer_key(public_key)])
        } else {
            None
        }
    }

    /// The post record stored for `(author, msg_key)`, if present and
    /// well-formed.
    pub open spec fn post_at(self, author: Seq<char>, msg_key: Seq<char>) -> Option<PostView> {
        if self.post_map().contains_key(post_key(author, msg_key)) {
            spec_decode_post(self.post_map()[post_key(author, msg_key)])
        } else {
            None
        }
    }

    /// Initialise the database by opening the database file, loading the
    /// peer and post trees and returning an instantiated Database struct.
    /// Nothing is assumed about what an existing database file holds.
    pub fn init(path: &str) -> Result<Database, StoreError> {
        let db = match db_open(path) {
            Ok(db) => db,
            Err(_) => {
                return Err(StoreError::Storage);
            },
        };
        let peer_tree = match db_open_tree(&db, "peers") {
            Ok(tree) => tree,
            Err(_) => {
                return Err(StoreError::Storage);
            },
        };
        let post_tree = match db_open_tree(&db, "posts") {
            Ok(tree) => tree,
            Err(_) => {
                return Err(StoreError::Storage);
            },
        };
        Ok(Database { db, peer_tree, post_tree })
    }

    /// Open a database backed by temporary storage, for ephemeral use such
    /// as tests.
    pub fn temporary() -> Result<Database, StoreError> {
        let db = match db_open_temporary() {
            Ok(db) => db,
            Err(_) => {
                return Err(StoreError::Storage);
            },
        };
        let peer_tree = match db_open_tree(&db, "peers") {
            Ok(tree) => tree,
            Err(_) => {
                return Err(StoreError::Storage);
            },
        };
        let post_tree = match db_open_tree(&db, "posts") {
            Ok(tree) => tree,
            Err(_) => {
                return Err(StoreError::Storage);
            },
        };
        Ok(Database { db, peer_tree, post_tree })
    }

    /// Add a peer to the database by upserting its record into the peer
    /// tree. Posts are never touched; peers under other keys are never
    /// touched.
    pub fn add_peer(&mut self, peer: Peer) -> (r: Result<(), StoreError>)
        ensures
            final(self).post_map() == old(self).post_map(),
            r is Err ==> r == Err::<(), StoreError>(StoreError::Storage) && final(self).peer_map()
                == old(self).peer_map(),
            r is Ok ==> final(self).peer_map() == old(self).peer_map().insert(
                peer_key(peer@.public_key),
                spec_encode_peer(peer@),
            ),
            r is Ok ==> final(self).peer_at(peer@.public_key) == Some(peer@),
            r is Ok ==> forall|other: Seq<char>|
                other != peer@.public_key ==> final(self).peer_at(other) == old(self).peer_at(
                    other,
                ),
    {
        let value = encode_peer(&peer);
        let result = tree_insert(&mut self.peer_tree, peer.public_key.as_str().as_bytes(), value.as_slice());
        match result {
            Ok(()) => {
                proof {
                    lemma_peer_round_trip(peer@);
                    assert forall|other: Seq<char>| other != peer@.public_key implies self.peer_at(
                        other,
                    ) == old(self).peer_at(other) by {
                        lemma_encode_utf8_injective(other, peer@.public_key);
                    }
                }
                Ok(())
            },
            Err(_) => Err(StoreError::Storage),
        }
    }

    /// Get a single peer from the peer tree, determined by the given public
    /// key.
    pub fn get_peer(&self, public_key: &str) -> (r: Result<Option<Peer>, StoreError>)
        ensures
            r matches Ok(Some(p)) ==> self.peer_at(public_key@) == Some(p@),
            r matches Ok(None) ==> !self.peer_map().contains_key(peer_key(public_key@)),
            r == Err::<Option<Peer>, StoreError>(StoreError::InvalidRecord) ==> self.peer_map()
                .contains_key(peer_key(public_key@)) && self.peer_at(public_key@) is None,
    {
        match tree_get(&self.peer_tree, public_key.as_bytes()) {
            Err(_) => Err(StoreError::Storage),
            Ok(None) => Ok(None),
            Ok(Some(bytes)) => match decode_peer(bytes.as_slice()) {
                Some(peer) => Ok(Some(peer)),
                None => Err(StoreError::InvalidRecord),
            },
        }
    }

    /// Remove a peer from the database, as represented by the given public
    /// key. Stored posts are left untouched: unsubscribing does not cascade.
    pub fn remove_peer(&mut self, public_key: &str) -> (r: Result<(), StoreError>)
        ensures
            final(self).post_map() == old(self).post_map(),
            r is Err ==> r == Err::<(), StoreError>(StoreError::Storage) && final(self).peer_map()
                == old(self).peer_map(),
            r is Ok ==> final(self).peer_map() == old(self).peer_map().remove(
                peer_key(public_key@),
            ),
            r is Ok ==> final(self).peer_at(public_key@) is None,
            r is Ok ==> forall|other: Seq<char>|
                other != public_key@ ==> final(self).peer_at(other) == old(self).peer_at(other),
    {
        let result = tree_remove(&mut self.peer_tree, public_key.as_bytes());
        match result {
            Ok(()) => {
                proof {
                    assert forall|other: Seq<char>| other != public_key@ implies self.peer_at(
                        other,
                    ) == old(self).peer_at(other) by {
                        lemma_encode_utf8_injective(other, public_key@);
                    }
                }
                Ok(())
            },
            Err(_) => Err(StoreError::Storage),
        }
    }
}

/// Build the composite tree key for a post: author, underscore, message key.
fn post_key_string(public_key: &str, msg_key: &str) -> (s: String)
    ensures
        s@ == public_key@ + seq!['_'] + msg_key@,
{
    let mut s = public_key.to_owned();
    s.append("_");
    s.append(msg_key);
    proof {
        reveal_strlit("_");
        assert(("_")@ =~= seq!['_']);
    }
    s
}

/// Build the key prefix shared by every post of one author.
fn post_prefix_string(public_key: &str) -> (s: String)
    ensures
        s@ == public_key@ + seq!['_'],
{
    let mut s = public_key.to_owned();
    s.append("_");
    proof {
        reveal_strlit("_");
        assert(("_")@ =~= seq!['_']);
    }
    s
}

/// The number of unread posts in a listing.
pub open spec fn unread_count(posts: Seq<PostView>) -> nat
    decreases posts.len(),
{
    if posts.len() == 0 {
        0
    } else {
        unread_count(posts.drop_last()) + if !posts.last().read {
            1nat
        } else {
            0nat
        }
    }
}

impl Database {
    /// `ks` enumerates exactly the peer-tree keys, each once, and `peers`
    /// holds their decoded records in the same order.
    pub open spec fn peer_listing_keys(self, peers: Seq<PeerView>, ks: Seq<Seq<u8>>) -> bool {
        &&& ks.no_duplicates()
        &&& forall|i: int| 0 <= i < ks.len() ==> self.peer_map().contains_key(#[trigger] ks[i])
        &&& forall|k: Seq<u8>| #[trigger] self.peer_map().contains_key(k) ==> ks.contains(k)
        &&& peers.len() == ks.len()
        &&& forall|i: int|
            0 <= i < ks.len() ==> spec_decode_peer(self.peer_map()[#[trigger] ks[i]]) == Some(
                peers[i],
            )
    }

    /// `peers` lists the decoded records of all stored peers, each once, in
    /// some order.
    pub open spec fn is_peer_listing(self, peers: Seq<PeerView>) -> bool {
        exists|ks: Seq<Seq<u8>>| self.peer_listing_keys(peers, ks)
    }

    /// `ks` enumerates exactly the post-tree keys carrying the author's
    /// prefix, each once, and `posts` holds their decoded records in the
    /// same order.
    pub open spec fn post_listing_keys(
        self,
        author: Seq<char>,
        posts: Seq<PostView>,
        ks: Seq<Seq<u8>>,
    ) -> bool {
        &&& ks.no_duplicates()
        &&& forall|i: int|
            0 <= i < ks.len() ==> self.post_map().contains_key(#[trigger] ks[i]) && post_prefix(
                author,
            ).is_prefix_of(ks[i])
        &&& forall|k: Seq<u8>|
            #[trigger] self.post_map().contains_key(k) && post_prefix(author).is_prefix_of(k)
                ==> ks.contains(k)
        &&& posts.len() == ks.len()
        &&& forall|i: int|
            0 <= i < ks.len() ==> spec_decode_post(self.post_map()[#[trigger] ks[i]]) == Some(
                posts[i],
            )
    }

    /// `posts` lists the decoded records of all posts stored for the author,
    /// each once, in some order.
    pub open spec fn is_post_listing(self, author: Seq<char>, posts: Seq<PostView>) -> bool {
        exists|ks: Seq<Seq<u8>>| self.post_listing_keys(author, posts, ks)
    }

    /// Add a post to the database by upserting its record into the post
    /// tree, keyed by author and message key. Peers are never touched.
    pub fn add_post(&mut self, public_key: &str, post: Post) -> (r: Result<(), StoreError>)
        ensures
            final(self).peer_map() == old(self).peer_map(),
            r is Err ==> r == Err::<(), StoreError>(StoreError::Storage) && final(self).post_map()
                == old(self).post_map(),
            r is Ok ==> final(self).post_map() == old(self).post_map().insert(
                post_key(public_key@, post@.key),
                spec_encode_post(post@),
            ),
            r is Ok ==> final(self).post_at(public_key@, post@.key) == Some(post@),
            r is Ok ==> forall|a2: Seq<char>, k2: Seq<char>|
                a2 + seq!['_'] + k2 != public_key@ + seq!['_'] + post@.key
                    ==> (#[trigger] final(self).post_at(a2, k2)) == old(self).post_at(a2, k2),
    {
        let key_string = post_key_string(public_key, post.key.as_str());
        let value = encode_post(&post);
        let result = tree_insert(
            &mut self.post_tree,
            key_string.as_str().as_bytes(),
            value.as_slice(),
        );
        match result {
            Ok(()) => {
                proof {
                    lemma_post_round_trip(post@);
                    assert forall|a2: Seq<char>, k2: Seq<char>|
                        a2 + seq!['_'] + k2 != public_key@ + seq!['_'] + post@.key implies (
                    #[trigger] self.post_at(a2, k2)) == old(self).post_at(a2, k2) by {
                        lemma_encode_utf8_injective(
                            a2 + seq!['_'] + k2,
                            public_key@ + seq!['_'] + post@.key,
                        );
                    }
                }
                Ok(())
            },
            Err(_) => Err(StoreError::Storage),
        }
    }

    /// Add a batch of posts to the database by upserting their records into
    /// the post tree as one atomic unit. Peers are never touched. On
    /// failure the tree's prior state for those keys is unspecified: treat
    /// a failed batch as "retry the whole fetch".
    #[verifier::loop_isolation(false)]
    pub fn add_post_batch(&mut self, public_key: &str, posts: Vec<Post>) -> (r: Result<
        (),
        StoreError,
    >)
        ensures
            final(self).peer_map() == old(self).peer_map(),
            r is Err ==> r == Err::<(), StoreError>(StoreError::Storage),
            // On failure the batch's own keys are unspecified (retry the
            // whole fetch); every key outside the batch is untouched.
            r is Err ==> final(self).post_map().remove_keys(
                posts_as_map(public_key@, posts@.map_values(|p: Post| p@)).dom(),
            ) == old(self).post_map().remove_keys(
                posts_as_map(public_key@, posts@.map_values(|p: Post| p@)).dom(),
            ),
            r is Ok ==> final(self).post_map() == old(self).post_map().union_prefer_right(
                posts_as_map(public_key@, posts@.map_values(|p: Post| p@)),
            ),
    {
        let mut writes: Vec<(Vec<u8>, Vec<u8>)> = Vec::new();
        let mut i: usize = 0;
        while i < posts.len()
            invariant
                i <= posts@.len(),
                write_pairs_map(writes@) == posts_as_map(
                    public_key@,
                    posts@.take(i as int).map_values(|p: Post| p@),
                ),
            decreases posts@.len() - i,
        {
            let ghost writes_prev = writes@;
            let key_string = post_key_string(public_key, posts[i].key.as_str());
            let value = encode_post(&posts[i]);
            writes.push((key_string.as_str().as_bytes_vec(), value));
            proof {
                let f = |p: Post| p@;
                assert(writes@.drop_last() =~= writes_prev);
                let prev_views = posts@.take(i as int).map_values(f);
                let next_views = posts@.take(i + 1int).map_values(f);
                assert(next_views.drop_last() =~= prev_views);
                assert(next_views.last() == posts@[i as int]@);
            }
            i += 1;
        }
        proof {
            assert(posts@.take(posts@.len() as int) =~= posts@);
        }
        let result = tree_apply_writes(&mut self.post_tree, &writes);
        match result {
            Ok(()) => Ok(()),
            Err(_) => Err(StoreError::Storage),
        }
    }

    /// Get a single post from the post tree, determined by the given public
    /// key and message key.
    pub fn get_post(&self, public_key: &str, msg_id: &str) -> (r: Result<Option<Post>, StoreError>)
        ensures
            r matches Ok(Some(p)) ==> self.post_at(public_key@, msg_id@) == Some(p@),
            r matches Ok(None) ==> !self.post_map().contains_key(post_key(public_key@, msg_id@)),
            r == Err::<Option<Post>, StoreError>(StoreError::InvalidRecord) ==> self.post_map()
                .contains_key(post_key(public_key@, msg_id@)) && self.post_at(
                public_key@,
                msg_id@,
            ) is None,
    {
        let key_string = post_key_string(public_key, msg_id);
        match tree_get(&self.post_tree, key_string.as_str().as_bytes()) {
            Err(_) => Err(StoreError::Storage),
            Ok(None) => Ok(None),
            Ok(Some(bytes)) => match decode_post(bytes.as_slice()) {
                Some(post) => Ok(Some(post)),
                None => Err(StoreError::InvalidRecord),
            },
        }
    }

    /// Remove a post from the database, as represented by the given public
    /// key and message key. Peers are never touched.
    pub fn remove_post(&mut self, public_key: &str, msg_id: &str) -> (r: Result<(), StoreError>)
        ensures
            final(self).peer_map() == old(self).peer_map(),
            r is Err ==> r == Err::<(), StoreError>(StoreError::Storage) && final(self).post_map()
                == old(self).post_map(),
            r is Ok ==> final(self).post_map() == old(self).post_map().remove(
                post_key(public_key@, msg_id@),
            ),
            r is Ok ==> final(self).post_at(public_key@, msg_id@) is None,
    {
        let key_string = post_key_string(public_key, msg_id);
        let result = tree_remove(&mut self.post_tree, key_string.as_str().as_bytes());
        match result {
            Ok(()) => Ok(()),
            Err(_) => Err(StoreError::Storage),
        }
    }

    /// Return all peers stored in the peer tree, each exactly once, in the
    /// tree's iteration order.
    #[verifier::loop_isolation(false)]
    pub fn get_peers(&self) -> (r: Result<Vec<Peer>, StoreError>)
        ensures
            r matches Ok(v) ==> self.is_peer_listing(v@.map_values(|p: Peer| p@)),
            r == Err::<Vec<Peer>, StoreError>(StoreError::InvalidRecord) ==> exists|k: Seq<u8>|
                #[trigger] self.peer_map().contains_key(k) && spec_decode_peer(
                    self.peer_map()[k],
                ) is None,
    {
        let empty_prefix: Vec<u8> = Vec::new();
        let entries = match tree_scan_prefix(&self.peer_tree, empty_prefix.as_slice()) {
            Ok(entries) => entries,
            Err(_) => {
                return Err(StoreError::Storage);
            },
        };
        let mut peers: Vec<Peer> = Vec::new();
        let mut i: usize = 0;
        while i < entries.len()
            invariant
                i <= entries@.len(),
                peers@.len() == i,
                forall|j: int|
                    0 <= j < i ==> spec_decode_peer(self.peer_map()[entries@[j].0@]) == Some(
                        (#[trigger] peers@[j])@,
                    ),
            decreases entries@.len() - i,
        {
            let entry_value: &Vec<u8> = &entries[i].1;
            match decode_peer(entry_value.as_slice()) {
                Some(peer) => peers.push(peer),
                None => {
                    return Err(StoreError::InvalidRecord);
                },
            }
            i += 1;
        }
        proof {
            let ghost ks = entries@.map_values(|e: (Vec<u8>, Vec<u8>)| e.0@);
            let views = peers@.map_values(|p: Peer| p@);
            assert forall|k: Seq<u8>| #[trigger] self.peer_map().contains_key(k) implies ks.contains(
                k,
            ) by {
                assert(Seq::<u8>::empty().is_prefix_of(k));
                let idx = choose|idx: int|
                    0 <= idx < entries@.len() && (#[trigger] entries@[idx].0@) == k;
                assert(ks[idx] == k);
            }
            assert(self.peer_listing_keys(views, ks));
        }
        Ok(peers)
    }

    /// Return all posts stored for the given author, each exactly once, in
    /// the tree's iteration order.
    #[verifier::loop_isolation(false)]
    pub fn get_posts(&self, public_key: &str) -> (r: Result<Vec<Post>, StoreError>)
        ensures
            r matches Ok(v) ==> self.is_post_listing(public_key@, v@.map_values(|p: Post| p@)),
            r == Err::<Vec<Post>, StoreError>(StoreError::InvalidRecord) ==> exists|k: Seq<u8>|
                #[trigger] self.post_map().contains_key(k) && spec_decode_post(
                    self.post_map()[k],
                ) is None,
    {
        let prefix = post_prefix_string(public_key);
        let entries = match tree_scan_prefix(&self.post_tree, prefix.as_str().as_bytes()) {
            Ok(entries) => entries,
            Err(_) => {
                return Err(StoreError::Storage);
            },
        };
        let mut posts: Vec<Post> = Vec::new();
        let mut i: usize = 0;
        while i < entries.len()
            invariant
                i <= entries@.len(),
                posts@.len() == i,
                forall|j: int|
                    0 <= j < i ==> spec_decode_post(self.post_map()[entries@[j].0@]) == Some(
                        (#[trigger] posts@[j])@,
                    ),
            decreases entries@.len() - i,
        {
            let entry_value: &Vec<u8> = &entries[i].1;
            match decode_post(entry_value.as_slice()) {
                Some(post) => posts.push(post),
                None => {
                    return Err(StoreError::InvalidRecord);
                },
            }
            i += 1;
        }
        proof {
            let ghost ks = entries@.map_values(|e: (Vec<u8>, Vec<u8>)| e.0@);
            let views = posts@.map_values(|p: Post| p@);
            assert forall|k: Seq<u8>|
                #[trigger] self.post_map().contains_key(k) && post_prefix(
                    public_key@,
                ).is_prefix_of(k) implies ks.contains(k) by {
                let idx = choose|idx: int|
                    0 <= idx < entries@.len() && (#[trigger] entries@[idx].0@) == k;
                assert(ks[idx] == k);
            }
            assert(self.post_listing_keys(public_key@, views, ks));
        }
        Ok(posts)
    }

    /// Count the unread posts stored for the given author.
    #[verifier::loop_isolation(false)]
    pub fn get_unread_post_count(&self, public_key: &str) -> (r: Result<u64, StoreError>)
        ensures
            r matches Ok(n) ==> exists|posts: Seq<PostView>|
                #[trigger] self.is_post_listing(public_key@, posts) && n == unread_count(posts),
            r == Err::<u64, StoreError>(StoreError::InvalidRecord) ==> exists|k: Seq<u8>|
                #[trigger] self.post_map().contains_key(k) && spec_decode_post(
                    self.post_map()[k],
                ) is None,
    {
        let posts = match self.get_posts(public_key) {
            Ok(posts) => posts,
            Err(e) => {
                return Err(e);
            },
        };
        let ghost views = posts@.map_values(|p: Post| p@);
        let mut count: u64 = 0;
        let mut i: usize = 0;
        while i < posts.len()
            invariant
                i <= posts@.len(),
                count <= i,
                count == unread_count(views.take(i as int)),
            decreases posts@.len() - i,
        {
            proof {
                assert(views.take(i + 1int).drop_last() =~= views.take(i as int));
                assert(views.take(i + 1int).last() == posts@[i as int]@);
            }
            if !posts[i].read {
                count = count + 1;
            }
            i += 1;
        }
        proof {
            assert(views.take(posts@.len() as int) =~= views);
        }
        Ok(count)
    }

    /// Store a new read/unread state for one post, leaving every other field
    /// and every other record unchanged. Returns whether the post existed.
    pub fn set_post_read(&mut self, public_key: &str, msg_id: &str, read: bool) -> (r: Result<
        bool,
        StoreError,
    >)
        ensures
            final(self).peer_map() == old(self).peer_map(),
            r == Ok::<bool, StoreError>(false) ==> final(self).post_map() == old(self).post_map()
                && !old(self).post_map().contains_key(post_key(public_key@, msg_id@)),
            r == Err::<bool, StoreError>(StoreError::InvalidRecord) ==> old(self).post_map()
                .contains_key(post_key(public_key@, msg_id@)) && old(self).post_at(
                public_key@,
                msg_id@,
            ) is None,
            r == Ok::<bool, StoreError>(true) ==> (old(self).post_at(
                public_key@,
                msg_id@,
            ) matches Some(v) && final(self).post_map() == old(self).post_map().insert(
                post_key(public_key@, v.key),
                spec_encode_post(PostView { read: read, ..v }),
            )),
    {
        match self.get_post(public_key, msg_id) {
            Err(e) => Err(e),
            Ok(None) => Ok(false),
            Ok(Some(post)) => {
                let updated = Post { read, ..post };
                match self.add_post(public_key, updated) {
                    Ok(()) => Ok(true),
                    Err(e) => Err(e),
                }
            },
        }
    }
}

} // verus!
