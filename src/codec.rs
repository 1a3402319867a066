//! Wire form of the message bodies. Each body is a CBOR map whose entry 0 is
//! the schema tag of its type, followed by the payload entries in key order.
//! Decoding accepts only that exact, canonical form, so a body of one type
//! never decodes as another and every decoded value re-encodes to the same
//! bytes.
use vstd::prelude::*;
use crate::cbor::{
    expect_map, expect_uint, head, lemma_text_item_len, put_map, put_text, put_uint, starts_with,
    take_map, take_text, text_item, uint_item, MAJOR_MAP,
};
use crate::model::{
    pairs_view, Attributes, AuthenticateAuth0Token, AuthenticateEnrollmentToken, EnrollmentToken,
    RequestEnrollmentToken, Token, TokenType,
};

verus! {

/// Schema tag of `AuthenticateAuth0Token`.
pub const AUTH0_TOKEN_TAG: u32 = 1058055;

/// Schema tag of `RequestEnrollmentToken`.
pub const REQUEST_ENROLLMENT_TOKEN_TAG: u32 = 8560526;

/// Schema tag of `EnrollmentToken`.
pub const ENROLLMENT_TOKEN_TAG: u32 = 8932763;

/// Schema tag of `AuthenticateEnrollmentToken`.
pub const AUTHENTICATE_ENROLLMENT_TOKEN_TAG: u32 = 9463780;

/// Everything of a bearer body before the access token.
pub open spec fn auth0_prefix() -> Seq<u8> {
    head(MAJOR_MAP, 3) + uint_item(0) + uint_item(AUTH0_TOKEN_TAG as nat) + uint_item(1)
        + uint_item(0) + uint_item(2)
}

/// `{0: tag, 1: Bearer, 2: access_token}`.
pub open spec fn auth0_body(t: Seq<char>) -> Seq<u8> {
    auth0_prefix() + text_item(t)
}

/// Everything of a one-token body with schema tag `tag` before the token.
pub open spec fn token_prefix(tag: u32) -> Seq<u8> {
    head(MAJOR_MAP, 2) + uint_item(0) + uint_item(tag as nat) + uint_item(1)
}

/// `{0: tag, 1: token}`.
pub open spec fn token_body(tag: u32, t: Seq<char>) -> Seq<u8> {
    token_prefix(tag) + text_item(t)
}

/// The wire form of an `EnrollmentToken` holding `t`.
pub open spec fn enrollment_token_body(t: Seq<char>) -> Seq<u8> {
    token_body(ENROLLMENT_TOKEN_TAG, t)
}

/// The wire form of an `AuthenticateEnrollmentToken` holding `t`.
pub open spec fn authenticate_enrollment_body(t: Seq<char>) -> Seq<u8> {
    token_body(AUTHENTICATE_ENROLLMENT_TOKEN_TAG, t)
}

proof fn lemma_auth0_layout(t: Seq<char>)
    ensures
        auth0_prefix().len() == 10,
        starts_with(auth0_body(t), 0, head(MAJOR_MAP, 3)),
        starts_with(auth0_body(t), 1, uint_item(0)),
        starts_with(auth0_body(t), 2, uint_item(AUTH0_TOKEN_TAG as nat)),
        starts_with(auth0_body(t), 7, uint_item(1)),
        starts_with(auth0_body(t), 8, uint_item(0)),
        starts_with(auth0_body(t), 9, uint_item(2)),
        starts_with(auth0_body(t), 10, text_item(t)),
        auth0_body(t).len() == 10 + text_item(t).len(),
{
    let b = auth0_body(t);
    assert(b.subrange(0, 1) =~= head(MAJOR_MAP, 3));
    assert(b.subrange(1, 2) =~= uint_item(0));
    assert(b.subrange(2, 7) =~= uint_item(AUTH0_TOKEN_TAG as nat));
    assert(b.subrange(7, 8) =~= uint_item(1));
    assert(b.subrange(8, 9) =~= uint_item(0));
    assert(b.subrange(9, 10) =~= uint_item(2));
    assert(b.subrange(10, b.len() as int) =~= text_item(t));
}

proof fn lemma_token_layout(tag: u32, t: Seq<char>)
    requires
        tag >= 0x1_0000,
    ensures
        token_prefix(tag).len() == 8,
        starts_with(token_body(tag, t), 0, head(MAJOR_MAP, 2)),
        starts_with(token_body(tag, t), 1, uint_item(0)),
        starts_with(token_body(tag, t), 2, uint_item(tag as nat)),
        starts_with(token_body(tag, t), 7, uint_item(1)),
        starts_with(token_body(tag, t), 8, text_item(t)),
        token_body(tag, t).len() == 8 + text_item(t).len(),
{
    let b = token_body(tag, t);
    assert(b.subrange(0, 1) =~= head(MAJOR_MAP, 2));
    assert(b.subrange(1, 2) =~= uint_item(0));
    assert(b.subrange(2, 7) =~= uint_item(tag as nat));
    assert(b.subrange(7, 8) =~= uint_item(1));
    assert(b.subrange(8, b.len() as int) =~= text_item(t));
}

/// Pieces read one after another from the start of `b` make up its prefix.
proof fn lemma_extend(b: Seq<u8>, p: int, piece: Seq<u8>)
    requires
        starts_with(b, p, piece),
    ensures
        b.subrange(0, p + piece.len()) == b.subrange(0, p) + piece,
{
    assert(b.subrange(0, p + piece.len()) =~= b.subrange(0, p) + piece);
}

/// Encodes a bearer authentication request.
pub fn encode_auth0(x: &AuthenticateAuth0Token) -> (r: Vec<u8>)
    ensures
        r@ == auth0_body(x.access_token.0@),
{
    let mut buf: Vec<u8> = Vec::new();
    put_map(&mut buf, 3);
    put_uint(&mut buf, 0);
    put_uint(&mut buf, AUTH0_TOKEN_TAG);
    put_uint(&mut buf, 1);
    match x.token_type {
        TokenType::Bearer => put_uint(&mut buf, 0),
    }
    put_uint(&mut buf, 2);
    put_text(&mut buf, &x.access_token.0);
    assert(buf@ =~= auth0_body(x.access_token.0@));
    buf
}

/// Decodes a bearer authentication request: it succeeds exactly on the wire
/// form of one, and gives back its access token.
pub fn decode_auth0(b: &[u8]) -> (r: Option<AuthenticateAuth0Token>)
    ensures
        forall|t: Seq<char>|
            #[trigger] auth0_body(t) == b@ <==> (r is Some && r.unwrap().access_token.0@ == t),
{
    let r = match expect_map(b, 0, 3) {
        None => None,
        Some(p) => match expect_uint(b, p, 0) {
            None => None,
            Some(p) => match expect_uint(b, p, AUTH0_TOKEN_TAG) {
                None => None,
                Some(p) => match expect_uint(b, p, 1) {
                    None => None,
                    Some(p) => match expect_uint(b, p, 0) {
                        None => None,
                        Some(p) => match expect_uint(b, p, 2) {
                            None => None,
                            Some(p) => match take_text(b, p) {
                                None => None,
                                Some((s, e)) => {
                                    if e == b.len() {
                                        proof {
                                            lemma_extend(b@, 0, head(MAJOR_MAP, 3));
                                            lemma_extend(b@, 1, uint_item(0));
                                            lemma_extend(b@, 2, uint_item(AUTH0_TOKEN_TAG as nat));
                                            lemma_extend(b@, 7, uint_item(1));
                                            lemma_extend(b@, 8, uint_item(0));
                                            lemma_extend(b@, 9, uint_item(2));
                                            lemma_extend(b@, 10, text_item(s@));
                                            assert(b@ =~= b@.subrange(0, e as int));
                                        }
                                        Some(
                                            AuthenticateAuth0Token {
                                                token_type: TokenType::Bearer,
                                                access_token: Token(s),
                                            },
                                        )
                                    } else {
                                        None
                                    }
                                },
                            },
                        },
                    },
                },
            },
        },
    };
    proof {
        assert forall|t: Seq<char>| #[trigger] auth0_body(t) == b@ implies (r is Some
            && r.unwrap().access_token.0@ == t) by {
            lemma_auth0_layout(t);
        }
    }
    r
}

/// Encodes a one-token body under schema tag `tag`.
fn encode_token_body(tag: u32, t: &Token) -> (r: Vec<u8>)
    ensures
        r@ == token_body(tag, t.0@),
{
    let mut buf: Vec<u8> = Vec::new();
    put_map(&mut buf, 2);
    put_uint(&mut buf, 0);
    put_uint(&mut buf, tag);
    put_uint(&mut buf, 1);
    put_text(&mut buf, &t.0);
    assert(buf@ =~= token_body(tag, t.0@));
    buf
}

/// Decodes a one-token body under schema tag `tag`.
fn decode_token_body(b: &[u8], tag: u32) -> (r: Option<Token>)
    requires
        tag >= 0x1_0000,
    ensures
        forall|t: Seq<char>|
            #[trigger] token_body(tag, t) == b@ <==> (r is Some && r.unwrap().0@ == t),
{
    let r = match expect_map(b, 0, 2) {
        None => None,
        Some(p) => match expect_uint(b, p, 0) {
            None => None,
            Some(p) => match expect_uint(b, p, tag) {
                None => None,
                Some(p) => match expect_uint(b, p, 1) {
                    None => None,
                    Some(p) => match take_text(b, p) {
                        None => None,
                        Some((s, e)) => {
                            if e == b.len() {
                                proof {
                                    lemma_extend(b@, 0, head(MAJOR_MAP, 2));
                                    lemma_extend(b@, 1, uint_item(0));
                                    lemma_extend(b@, 2, uint_item(tag as nat));
                                    lemma_extend(b@, 7, uint_item(1));
                                    lemma_extend(b@, 8, text_item(s@));
                                    assert(b@ =~= b@.subrange(0, e as int));
                                }
                                Some(Token(s))
                            } else {
                                None
                            }
                        },
                    },
                },
            },
        },
    };
    proof {
        assert forall|t: Seq<char>| #[trigger] token_body(tag, t) == b@ implies (r is Some
            && r.unwrap().0@ == t) by {
            lemma_token_layout(tag, t);
        }
    }
    r
}

/// Encodes a minted enrollment token.
pub fn encode_enrollment_token(x: &EnrollmentToken) -> (r: Vec<u8>)
    ensures
        r@ == enrollment_token_body(x.token.0@),
{
    encode_token_body(ENROLLMENT_TOKEN_TAG, &x.token)
}

/// Decodes a minted enrollment token: it succeeds exactly on the wire form of
/// one.
pub fn decode_enrollment_token(b: &[u8]) -> (r: Option<EnrollmentToken>)
    ensures
        forall|t: Seq<char>|
            #[trigger] enrollment_token_body(t) == b@ <==> (r is Some && r.unwrap().token.0@ == t),
{
    match decode_token_body(b, ENROLLMENT_TOKEN_TAG) {
        Some(token) => Some(EnrollmentToken { token }),
        None => None,
    }
}

/// Encodes a request to redeem an enrollment token.
pub fn encode_authenticate_enrollment(x: &AuthenticateEnrollmentToken) -> (r: Vec<u8>)
    ensures
        r@ == authenticate_enrollment_body(x.token.0@),
{
    encode_token_body(AUTHENTICATE_ENROLLMENT_TOKEN_TAG, &x.token)
}

/// Decodes a request to redeem an enrollment token: it succeeds exactly on
/// the wire form of one.
pub fn decode_authenticate_enrollment(b: &[u8]) -> (r: Option<AuthenticateEnrollmentToken>)
    ensures
        forall|t: Seq<char>|
            #[trigger] authenticate_enrollment_body(t) == b@ <==> (r is Some
                && r.unwrap().token.0@ == t),
{
    match decode_token_body(b, AUTHENTICATE_ENROLLMENT_TOKEN_TAG) {
        Some(token) => Some(AuthenticateEnrollmentToken { token }),
        None => None,
    }
}

/// One key/value entry of an attribute map.
pub open spec fn entry_item(e: (Seq<char>, Seq<char>)) -> Seq<u8> {
    text_item(e.0) + text_item(e.1)
}

/// The entries of an attribute map, one after another.
pub open spec fn entries_bytes(a: Seq<(Seq<char>, Seq<char>)>) -> Seq<u8>
    decreases a.len(),
{
    if a.len() == 0 {
        Seq::empty()
    } else {
        entries_bytes(a.drop_last()) + entry_item(a.last())
    }
}

/// The wire form of an attribute map: a map head, then the entries in order.
pub open spec fn attributes_body(a: Seq<(Seq<char>, Seq<char>)>) -> Seq<u8> {
    head(MAJOR_MAP, a.len()) + entries_bytes(a)
}

/// The wire form of a `RequestEnrollmentToken` carrying the attributes `a`.
pub open spec fn request_enrollment_body(a: Seq<(Seq<char>, Seq<char>)>) -> Seq<u8> {
    token_prefix(REQUEST_ENROLLMENT_TOKEN_TAG) + attributes_body(a)
}

proof fn lemma_entries_len(a: Seq<(Seq<char>, Seq<char>)>)
    ensures
        entries_bytes(a).len() >= 2 * a.len(),
    decreases a.len(),
{
    if a.len() > 0 {
        lemma_entries_len(a.drop_last());
        lemma_text_item_len(a.last().0);
        lemma_text_item_len(a.last().1);
    }
}

/// The entries before `i` start the entries of `a`, and entry `i` follows them.
proof fn lemma_entries_prefix(a: Seq<(Seq<char>, Seq<char>)>, i: int)
    requires
        0 <= i < a.len(),
    ensures
        entries_bytes(a.take(i + 1)) == entries_bytes(a.take(i)) + entry_item(a[i]),
        entries_bytes(a.take(i + 1)).len() <= entries_bytes(a).len(),
        entries_bytes(a).subrange(0, entries_bytes(a.take(i + 1)).len() as int) == entries_bytes(
            a.take(i + 1),
        ),
    decreases a.len(),
{
    assert(a.take(i + 1).drop_last() =~= a.take(i));
    if i + 1 == a.len() {
        assert(a.take(i + 1) =~= a);
        assert(entries_bytes(a).subrange(0, entries_bytes(a).len() as int) =~= entries_bytes(a));
    } else {
        let d = a.drop_last();
        lemma_entries_prefix(d, i);
        assert(d.take(i + 1) =~= a.take(i + 1));
        assert(d.take(i) =~= a.take(i));
        let pre = entries_bytes(a.take(i + 1));
        assert(entries_bytes(a).subrange(0, pre.len() as int) =~= entries_bytes(d).subrange(
            0,
            pre.len() as int,
        ));
    }
}

/// Where entry `i` of an attribute map stands in its wire form.
proof fn lemma_entry_at(a: Seq<(Seq<char>, Seq<char>)>, i: int)
    requires
        0 <= i < a.len(),
    ensures
        ({
            let p = (head(MAJOR_MAP, a.len()).len() + entries_bytes(a.take(i)).len()) as int;
            &&& starts_with(attributes_body(a), p, text_item(a[i].0))
            &&& starts_with(attributes_body(a), p + text_item(a[i].0).len(), text_item(a[i].1))
        }),
{
    lemma_entries_prefix(a, i);
    let h = head(MAJOR_MAP, a.len());
    let e = entries_bytes(a);
    let pre = entries_bytes(a.take(i));
    let k = text_item(a[i].0);
    let v = text_item(a[i].1);
    let l1 = entries_bytes(a.take(i + 1)).len() as int;
    assert(e.subrange(0, l1) == pre + k + v);
    let b = attributes_body(a);
    let p = (h.len() + pre.len()) as int;
    assert forall|j: int| 0 <= j < k.len() implies b[p + j] == k[j] by {
        assert(b[p + j] == e[pre.len() + j]);
        assert(e.subrange(0, l1)[pre.len() + j] == (pre + k + v)[pre.len() + j]);
    }
    assert(b.subrange(p, p + k.len()) =~= k);
    assert forall|j: int| 0 <= j < v.len() implies b[p + k.len() + j] == v[j] by {
        assert(b[p + k.len() + j] == e[pre.len() + k.len() + j]);
        assert(e.subrange(0, l1)[pre.len() + k.len() + j] == (pre + k + v)[pre.len() + k.len()
            + j]);
    }
    assert(b.subrange(p + k.len(), p + k.len() + v.len()) =~= v);
}

/// An attribute map's wire form opens with its map head.
proof fn lemma_attributes_head(a: Seq<(Seq<char>, Seq<char>)>)
    ensures
        starts_with(attributes_body(a), 0, head(MAJOR_MAP, a.len())),
        attributes_body(a).len() >= 2 * a.len(),
{
    lemma_entries_len(a);
    assert(attributes_body(a).subrange(0, head(MAJOR_MAP, a.len()).len() as int) =~= head(
        MAJOR_MAP,
        a.len(),
    ));
}

/// Encodes an attribute map.
pub fn encode_attributes(a: &Attributes) -> (r: Vec<u8>)
    ensures
        r@ == attributes_body(a@),
{
    let mut buf: Vec<u8> = Vec::new();
    let n = a.entries.len();
    put_map(&mut buf, n as u64);
    let mut i: usize = 0;
    while i < n
        invariant
            n == a.entries@.len(),
            i <= n,
            buf@ == head(MAJOR_MAP, n as nat) + entries_bytes(a@.take(i as int)),
        decreases n - i,
    {
        put_text(&mut buf, &a.entries[i].0);
        put_text(&mut buf, &a.entries[i].1);
        proof {
            assert(a@.take(i + 1).drop_last() =~= a@.take(i as int));
        }
        i = i + 1;
    }
    assert(a@.take(n as int) =~= a@);
    buf
}

/// Decodes an attribute map: it succeeds exactly on the wire form of one.
pub fn decode_attributes(b: &[u8]) -> (r: Option<Attributes>)
    ensures
        forall|a: Seq<(Seq<char>, Seq<char>)>|
            #[trigger] attributes_body(a) == b@ <==> (r is Some && r.unwrap()@ == a),
{
    let _len = b.len();
    let (n, start) = match take_map(b, 0) {
        Some(x) => x,
        None => {
            proof {
                assert forall|a: Seq<(Seq<char>, Seq<char>)>| #[trigger]
                    attributes_body(a) == b@ implies false by {
                    lemma_attributes_head(a);
                    assert(starts_with(b@, 0, head(MAJOR_MAP, (a.len() as u64) as nat)));
                }
            }
            return None;
        },
    };
    proof {
        assert forall|a: Seq<(Seq<char>, Seq<char>)>| #[trigger]
            attributes_body(a) == b@ implies a.len() == n by {
            lemma_attributes_head(a);
            assert(starts_with(b@, 0, head(MAJOR_MAP, (a.len() as u64) as nat)));
        }
    }
    let mut entries: Vec<(String, String)> = Vec::new();
    let mut p: usize = start;
    let mut i: u64 = 0;
    while i < n
        invariant
            b@.len() <= usize::MAX,
            i <= n,
            entries@.len() == i,
            start <= p <= b@.len(),
            start == head(MAJOR_MAP, n as nat).len(),
            b@.subrange(0, p as int) == head(MAJOR_MAP, n as nat) + entries_bytes(
                pairs_view(entries@),
            ),
            forall|a: Seq<(Seq<char>, Seq<char>)>| #[trigger]
                attributes_body(a) == b@ ==> a.len() == n && a.take(i as int) == pairs_view(
                    entries@,
                ),
        decreases n - i,
    {
        let ghost prev = pairs_view(entries@);
        let (k, q) = match take_text(b, p) {
            Some(x) => x,
            None => {
                proof {
                    assert forall|a: Seq<(Seq<char>, Seq<char>)>| #[trigger]
                        attributes_body(a) == b@ implies false by {
                        lemma_entry_at(a, i as int);
                        assert(entries_bytes(a.take(i as int)) == entries_bytes(prev));
                        assert(b@.subrange(0, p as int).len() == p);
                    }
                }
                return None;
            },
        };
        let (v, e) = match take_text(b, q) {
            Some(x) => x,
            None => {
                proof {
                    assert forall|a: Seq<(Seq<char>, Seq<char>)>| #[trigger]
                        attributes_body(a) == b@ implies false by {
                        lemma_entry_at(a, i as int);
                        assert(entries_bytes(a.take(i as int)) == entries_bytes(prev));
                        assert(b@.subrange(0, p as int).len() == p);
                        assert(starts_with(b@, p as int, text_item(a[i as int].0)));
                        assert(k@ == a[i as int].0);
                        assert(q == p + text_item(a[i as int].0).len());
                        assert(starts_with(b@, q as int, text_item(a[i as int].1)));
                    }
                }
                return None;
            },
        };
        proof {
            assert(b@.subrange(0, e as int) =~= b@.subrange(0, p as int) + text_item(k@)
                + text_item(v@));
            assert forall|a: Seq<(Seq<char>, Seq<char>)>| #[trigger]
                attributes_body(a) == b@ implies a.take(i + 1) == prev.push((k@, v@)) by {
                lemma_entry_at(a, i as int);
                assert(a.take(i + 1) =~= a.take(i as int).push(a[i as int]));
            }
        }
        entries.push((k, v));
        proof {
            assert(pairs_view(entries@) =~= prev.push((k@, v@)));
            assert(prev.push((k@, v@)).drop_last() =~= prev);
        }
        p = e;
        i = i + 1;
    }
    if p != b.len() {
        proof {
            assert forall|a: Seq<(Seq<char>, Seq<char>)>| #[trigger]
                attributes_body(a) == b@ implies false by {
                assert(a.take(n as int) =~= a);
            }
        }
        return None;
    }
    let r = Attributes { entries };
    proof {
        assert(b@ =~= b@.subrange(0, p as int));
        assert forall|a: Seq<(Seq<char>, Seq<char>)>| #[trigger]
            attributes_body(a) == b@ implies r@ == a by {
            assert(a.take(n as int) =~= a);
        }
    }
    Some(r)
}

/// Encodes a request to mint an enrollment token.
pub fn encode_request_enrollment(x: &RequestEnrollmentToken) -> (r: Vec<u8>)
    ensures
        r@ == request_enrollment_body(x.attributes@),
{
    let mut buf: Vec<u8> = Vec::new();
    put_map(&mut buf, 2);
    put_uint(&mut buf, 0);
    put_uint(&mut buf, REQUEST_ENROLLMENT_TOKEN_TAG);
    put_uint(&mut buf, 1);
    let body = encode_attributes(&x.attributes);
    let mut i: usize = 0;
    let ghost pre = buf@;
    while i < body.len()
        invariant
            pre == token_prefix(REQUEST_ENROLLMENT_TOKEN_TAG),
            i <= body@.len(),
            buf@ == pre + body@.take(i as int),
        decreases body@.len() - i,
    {
        buf.push(body[i]);
        proof {
            assert(body@.take(i + 1) =~= body@.take(i as int).push(body@[i as int]));
        }
        i = i + 1;
    }
    assert(body@.take(body@.len() as int) =~= body@);
    buf
}

} // verus!
