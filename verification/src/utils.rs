//! Public key validation.

use vstd::prelude::*;

verus! {

/// The body of a subscribe or unsubscribe request: the public key of the
/// peer concerned, exactly as the caller submitted it. It is validated with
/// [`validate_public_key`] before any task is built from it.
pub struct PeerForm {
    pub public_key: String,
}

/// The algorithm tag that every supported public key must end with.
pub open spec fn ed25519_suffix() -> Seq<char> {
    seq!['.', 'e', 'd', '2', '5', '5', '1', '9']
}

/// The key starts with the `@` sigil.
pub open spec fn has_sigil(s: Seq<char>) -> bool {
    s.len() > 0 && s[0] == '@'
}

/// The key contains at least one dot.
pub open spec fn has_dot(s: Seq<char>) -> bool {
    exists|i: int| 0 <= i < s.len() && s[i] == '.'
}

/// The key ends with the `.ed25519` algorithm tag.
pub open spec fn has_ed25519_suffix(s: Seq<char>) -> bool {
    s.len() >= 8 && s.subrange(s.len() - 8, s.len() as int) == ed25519_suffix()
}

/// A valid key is `@`, then exactly 44 characters of base64 data, then
/// `.ed25519`: 53 characters in all.
pub open spec fn is_valid_public_key(s: Seq<char>) -> bool {
    has_sigil(s) && has_ed25519_suffix(s) && s.len() == 53
}

/// Ensure that the given public key is a valid ed25519 key.
///
/// Return an error string if the key is invalid. The checks run in a fixed
/// order (sigil, dot, algorithm tag, base64 length) and the first failing
/// check picks the message.
pub fn validate_public_key(public_key: &str) -> (r: Result<(), String>)
    ensures
        r is Ok <==> is_valid_public_key(public_key@),
        !has_sigil(public_key@) ==> r is Err && r->Err_0@ == "expected '@' sigil as first character"@,
        has_sigil(public_key@) && !has_dot(public_key@) ==> r is Err && r->Err_0@
            == "no dot index was found"@,
        has_sigil(public_key@) && has_dot(public_key@) && !has_ed25519_suffix(public_key@)
            ==> r is Err && r->Err_0@ == "hashing algorithm must be ed25519"@,
        has_sigil(public_key@) && has_ed25519_suffix(public_key@) && public_key@.len() != 53
            ==> r is Err && r->Err_0@ == "base64 data length is incorrect"@,
{
    let n = public_key.unicode_len();

    // Ensure the key starts with the correct sigil link.
    if n == 0 || public_key.get_char(0) != '@' {
        return Err(String::from_str("expected '@' sigil as first character"));
    }

    // Ensure the key contains a dot, denoting the start of the algorithm tag.
    let mut dot_found = false;
    let mut i: usize = 0;
    while i < n
        invariant
            i <= n,
            n == public_key@.len(),
            dot_found <==> exists|j: int| 0 <= j < i && public_key@[j] == '.',
        decreases n - i,
    {
        if public_key.get_char(i) == '.' {
            dot_found = true;
        }
        i += 1;
    }
    if !dot_found {
        return Err(String::from_str("no dot index was found"));
    }

    // Check the hashing algorithm (the key must end with ".ed25519").
    let tag_matches = n >= 8 && public_key.get_char(n - 8) == '.' && public_key.get_char(n - 7)
        == 'e' && public_key.get_char(n - 6) == 'd' && public_key.get_char(n - 5) == '2'
        && public_key.get_char(n - 4) == '5' && public_key.get_char(n - 3) == '5'
        && public_key.get_char(n - 2) == '1' && public_key.get_char(n - 1) == '9';
    proof {
        if tag_matches {
            assert(public_key@.subrange(n - 8, n as int) =~= ed25519_suffix());
        }
    }
    if !tag_matches {
        return Err(String::from_str("hashing algorithm must be ed25519"));
    }

    // Ensure the length of the base64 encoded ed25519 public key is correct:
    // the sigil, 44 characters of base64 data and the 8-character tag.
    if n != 53 {
        return Err(String::from_str("base64 data length is incorrect"));
    }

    Ok(())
}

} // verus!
