//! The session-token codec.
//!
//! A token is the hex-rendered HMAC-SHA256 tag over the embedded email,
//! a dot, then the email itself: `hex(tag(secret, email)) "." email`.
//! This compact signed-claim format is this crate's own — it is not a
//! JWT, and tokens are not interchangeable with JWT-based encodings of
//! the same claim. Verification recomputes the tag over the embedded
//! claim with the same secret and accepts only an exact match. Tokens
//! carry no expiry claim; one stays valid until the signing secret
//! changes.

use vstd::prelude::*;

use crate::model::TokenClaims;

verus! {

/// The HMAC-SHA256 tag over `data` keyed with `key`.
pub uninterp spec fn mac_of(key: Seq<char>, data: Seq<char>) -> Seq<u8>;

/// Relies on hmac's `Hmac<sha2::Sha256>`: the tag depends on the key and
/// message bytes alone, and is 32 bytes long. Keys of any length are
/// accepted.
#[verifier::external_body]
fn hmac_sha256(key: &str, data: &str) -> (r: Vec<u8>)
    ensures
        r@ == mac_of(key@, data@),
        r@.len() == 32,
{
    let mut mac = <hmac::Hmac<sha2::Sha256> as hmac::KeyInit>::new_from_slice(key.as_bytes())
        .expect("HMAC accepts keys of any length");
    hmac::Mac::update(&mut mac, data.as_bytes());
    hmac::Mac::finalize(mac).into_bytes().to_vec()
}

/// The lower-case hex character for a value below sixteen.
pub open spec fn hex_char(d: nat) -> char {
    if d < 10 {
        ((48 + d) as u8) as char
    } else {
        ((87 + d) as u8) as char
    }
}

/// Two hex characters for one byte, high half first.
pub open spec fn hex_of_byte(b: u8) -> Seq<char> {
    seq![hex_char(b as nat / 16), hex_char(b as nat % 16)]
}

/// The hex rendering of a byte string.
pub open spec fn hex_of(bytes: Seq<u8>) -> Seq<char>
    decreases bytes.len(),
{
    if bytes.len() == 0 {
        Seq::empty()
    } else {
        hex_of(bytes.drop_last()) + hex_of_byte(bytes.last())
    }
}

/// The signed token carrying `email`.
pub open spec fn token_of(secret: Seq<char>, email: Seq<char>) -> Seq<char> {
    hex_of(mac_of(secret, email)) + seq!['.'] + email
}

/// The position of the first dot in `s`, if any.
pub open spec fn first_dot(s: Seq<char>) -> Option<int>
    decreases s.len(),
{
    if s.len() == 0 {
        None
    } else if s[0] == '.' {
        Some(0int)
    } else {
        match first_dot(s.drop_first()) {
            Some(i) => Some(i + 1),
            None => None,
        }
    }
}

/// What verification yields on `token`: the embedded email, if the token
/// is exactly what signing that email with `secret` produces.
pub open spec fn verify_spec(secret: Seq<char>, token: Seq<char>) -> Option<Seq<char>> {
    match first_dot(token) {
        None => None,
        Some(i) => {
            let email = token.subrange(i + 1, token.len() as int);
            if token == token_of(secret, email) {
                Some(email)
            } else {
                None
            }
        },
    }
}

/// Hex renderings never contain a dot.
proof fn lemma_hex_no_dot(bytes: Seq<u8>)
    ensures
        forall|i: int| 0 <= i < hex_of(bytes).len() ==> (#[trigger] hex_of(bytes)[i]) != '.',
    decreases bytes.len(),
{
    if bytes.len() > 0 {
        lemma_hex_no_dot(bytes.drop_last());
        let rest = hex_of(bytes.drop_last());
        assert forall|i: int|
            0 <= i < hex_of(bytes).len() implies (#[trigger] hex_of(bytes)[i]) != '.' by {
            if i >= rest.len() {
                let b = bytes.last();
                assert(hex_of(bytes)[i] == hex_of_byte(b)[i - rest.len()]);
                assert(hex_char(b as nat / 16) != '.');
                assert(hex_char(b as nat % 16) != '.');
            }
        }
    }
}

/// Where the first character scanned to position `i` is the first dot.
proof fn lemma_first_dot_at(s: Seq<char>, i: int)
    requires
        0 <= i < s.len(),
        s[i] == '.',
        forall|j: int| 0 <= j < i ==> (#[trigger] s[j]) != '.',
    ensures
        first_dot(s) == Some(i),
    decreases i,
{
    if i > 0 {
        lemma_first_dot_at(s.drop_first(), i - 1);
    }
}

/// A string without a dot has no first dot.
proof fn lemma_first_dot_none(s: Seq<char>)
    requires
        forall|j: int| 0 <= j < s.len() ==> (#[trigger] s[j]) != '.',
    ensures
        first_dot(s) is None,
    decreases s.len(),
{
    if s.len() > 0 {
        lemma_first_dot_none(s.drop_first());
    }
}

/// The one-character string for a hex digit value.
fn hex_digit_str(d: u8) -> (r: &'static str)
    requires
        d < 16,
    ensures
        r@ =~= seq![hex_char(d as nat)],
{
    proof {
        reveal_strlit("0");
        reveal_strlit("1");
        reveal_strlit("2");
        reveal_strlit("3");
        reveal_strlit("4");
        reveal_strlit("5");
        reveal_strlit("6");
        reveal_strlit("7");
        reveal_strlit("8");
        reveal_strlit("9");
        reveal_strlit("a");
        reveal_strlit("b");
        reveal_strlit("c");
        reveal_strlit("d");
        reveal_strlit("e");
        reveal_strlit("f");
    }
    match d {
        0 => "0",
        1 => "1",
        2 => "2",
        3 => "3",
        4 => "4",
        5 => "5",
        6 => "6",
        7 => "7",
        8 => "8",
        9 => "9",
        10 => "a",
        11 => "b",
        12 => "c",
        13 => "d",
        14 => "e",
        _ => "f",
    }
}

/// Renders bytes as lower-case hex.
#[verifier::loop_isolation(false)]
fn hex_string(bytes: &Vec<u8>) -> (r: String)
    ensures
        r@ == hex_of(bytes@),
{
    let n = bytes.len();
    let mut out = String::new();
    let mut i: usize = 0;
    while i < n
        invariant
            0 <= i <= n,
            n == bytes@.len(),
            out@ == hex_of(bytes@.subrange(0, i as int)),
        decreases n - i,
    {
        let b = bytes[i];
        out.append(hex_digit_str(b / 16));
        out.append(hex_digit_str(b % 16));
        proof {
            let prefix = bytes@.subrange(0, i as int);
            assert(bytes@.subrange(0, i + 1) =~= prefix.push(bytes@[i as int]));
            assert(bytes@.subrange(0, i + 1).drop_last() =~= prefix);
            assert(out@ =~= hex_of(bytes@.subrange(0, i + 1)));
        }
        i = i + 1;
    }
    proof {
        assert(bytes@.subrange(0, n as int) =~= bytes@);
    }
    out
}

/// Signs the claim set into a compact token.
pub fn issue(secret: &str, claims: &TokenClaims) -> (r: String)
    ensures
        r@ == token_of(secret@, claims.email@),
{
    let mac = hmac_sha256(secret, claims.email.as_str());
    let mut token = hex_string(&mac);
    proof {
        reveal_strlit(".");
    }
    token.append(".");
    token.append(claims.email.as_str());
    proof {
        assert(token@ =~= token_of(secret@, claims.email@));
    }
    token
}

/// Checks the token's signature and recovers the embedded claims, or
/// nothing when the token is malformed or its signature does not match.
#[verifier::loop_isolation(false)]
pub fn verify(secret: &str, token: &String) -> (r: Option<TokenClaims>)
    ensures
        r matches Some(c) ==> verify_spec(secret@, token@) == Some(c.email@),
        r is None ==> verify_spec(secret@, token@) is None,
{
    let n = token.as_str().unicode_len();
    let mut i: usize = 0;
    while i < n
        invariant
            0 <= i <= n,
            n == token@.len(),
            forall|j: int| 0 <= j < i ==> (#[trigger] token@[j]) != '.',
        decreases n - i,
    {
        if token.as_str().get_char(i) == '.' {
            proof {
                lemma_first_dot_at(token@, i as int);
            }
            let claims = TokenClaims {
                email: token.as_str().substring_char(i + 1, n).to_owned(),
            };
            let recomputed = issue(secret, &claims);
            if *token == recomputed {
                return Some(claims);
            } else {
                return None;
            }
        }
        i = i + 1;
    }
    proof {
        lemma_first_dot_none(token@);
    }
    None
}

/// Issuing a token and verifying it with the same secret gives the email
/// back unchanged, whatever the email.
pub proof fn issued_token_verifies(secret: Seq<char>, email: Seq<char>)
    ensures
        verify_spec(secret, token_of(secret, email)) == Some(email),
{
    let tok = token_of(secret, email);
    let h = hex_of(mac_of(secret, email));
    lemma_hex_no_dot(mac_of(secret, email));
    assert(tok[h.len() as int] == '.');
    assert forall|j: int| 0 <= j < h.len() implies (#[trigger] tok[j]) != '.' by {
        assert(tok[j] == h[j]);
    }
    lemma_first_dot_at(tok, h.len() as int);
    assert(tok.subrange(h.len() as int + 1, tok.len() as int) =~= email);
}

} // verus!
