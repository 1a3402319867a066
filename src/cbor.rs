//! CBOR items used by the message bodies: unsigned integers, map headers and
//! text strings, in their shortest (canonical) form. Encoding and decoding go
//! through minicbor; the decoding helpers here accept only canonical heads, so
//! that every accepted body has exactly one byte form.
use vstd::prelude::*;
use vstd::utf8::encode_utf8;

verus! {

/// Major type of unsigned integers.
pub const MAJOR_UINT: u8 = 0;

/// Major type of text strings.
pub const MAJOR_TEXT: u8 = 3;

/// Major type of maps.
pub const MAJOR_MAP: u8 = 5;

/// The shortest CBOR head of major type `m` carrying the argument `v`.
pub open spec fn head(m: u8, v: nat) -> Seq<u8> {
    let t = (m as nat) * 32;
    if v < 24 {
        seq![(t + v) as u8]
    } else if v < 0x100 {
        seq![(t + 24) as u8, v as u8]
    } else if v < 0x1_0000 {
        seq![(t + 25) as u8, (v / 0x100) as u8, (v % 0x100) as u8]
    } else if v < 0x1_0000_0000 {
        seq![
            (t + 26) as u8,
            (v / 0x100_0000) as u8,
            ((v / 0x1_0000) % 0x100) as u8,
            ((v / 0x100) % 0x100) as u8,
            (v % 0x100) as u8,
        ]
    } else {
        seq![
            (t + 27) as u8,
            ((v / 0x100_0000_0000_0000) % 0x100) as u8,
            ((v / 0x1_0000_0000_0000) % 0x100) as u8,
            ((v / 0x100_0000_0000) % 0x100) as u8,
            ((v / 0x1_0000_0000) % 0x100) as u8,
            ((v / 0x100_0000) % 0x100) as u8,
            ((v / 0x1_0000) % 0x100) as u8,
            ((v / 0x100) % 0x100) as u8,
            (v % 0x100) as u8,
        ]
    }
}

/// A canonical unsigned integer item.
pub open spec fn uint_item(v: nat) -> Seq<u8> {
    head(MAJOR_UINT, v)
}

/// A canonical text string item: the head gives the length of the UTF-8 bytes.
#[verifier::opaque]
pub open spec fn text_item(s: Seq<char>) -> Seq<u8> {
    head(MAJOR_TEXT, encode_utf8(s).len()) + encode_utf8(s)
}

/// The length of a text item: its head and its UTF-8 bytes.
pub proof fn lemma_text_item_len(s: Seq<char>)
    ensures
        text_item(s).len() == head(MAJOR_TEXT, encode_utf8(s).len()).len() + encode_utf8(s).len(),
{
    reveal(text_item);
}

/// `b` holds `piece` at position `pos`.
pub open spec fn starts_with(b: Seq<u8>, pos: int, piece: Seq<u8>) -> bool {
    0 <= pos && pos + piece.len() <= b.len() && b.subrange(pos, pos + piece.len()) == piece
}

/// Relies on minicbor's `Decoder::u32`: it reads one unsigned integer head at
/// `pos` (of any width whose value fits) and reports where the item ends.
#[verifier::external_body]
fn cbor_u32_at(b: &[u8], pos: usize) -> (r: Option<(u32, usize)>)
    ensures
        r matches Some((v, e)) ==> pos < e <= b@.len() && (e - pos == uint_item(v as nat).len()
            ==> b@.subrange(pos as int, e as int) == uint_item(v as nat)),
        forall|v: u32|
            #[trigger] starts_with(b@, pos as int, uint_item(v as nat)) ==> r == Some(
                (v, (pos + uint_item(v as nat).len()) as usize),
            ),
{
    let mut d = minicbor::Decoder::new(b);
    d.set_position(pos);
    match d.u32() {
        Ok(v) => Some((v, d.position())),
        Err(_) => None,
    }
}

/// Relies on minicbor's `Decoder::map`: it reads one map head at `pos`; a
/// definite length comes back as `Some`, an indefinite one as `None`.
#[verifier::external_body]
fn cbor_map_at(b: &[u8], pos: usize) -> (r: Option<(Option<u64>, usize)>)
    ensures
        r matches Some((Some(n), e)) ==> pos < e <= b@.len() && (e - pos == head(
            MAJOR_MAP,
            n as nat,
        ).len() ==> b@.subrange(pos as int, e as int) == head(MAJOR_MAP, n as nat)),
        forall|n: u64|
            #[trigger] starts_with(b@, pos as int, head(MAJOR_MAP, n as nat)) ==> r == Some(
                (Some(n), (pos + head(MAJOR_MAP, n as nat).len()) as usize),
            ),
{
    let mut d = minicbor::Decoder::new(b);
    d.set_position(pos);
    match d.map() {
        Ok(n) => Some((n, d.position())),
        Err(_) => None,
    }
}

/// Relies on minicbor's `Decoder::str`: it reads a definite-length text head
/// at `pos`, then that many bytes, which must be valid UTF-8.
#[verifier::external_body]
fn cbor_str_at(b: &[u8], pos: usize) -> (r: Option<(String, usize)>)
    ensures
        r matches Some((s, e)) ==> pos < e <= b@.len() && encode_utf8(s@).len() < e - pos && (e
            - pos == text_item(s@).len()
            ==> b@.subrange(pos as int, e as int) == text_item(s@)),
        forall|t: Seq<char>|
            #[trigger] starts_with(b@, pos as int, text_item(t)) ==> r is Some && r.unwrap().0@ == t
                && r.unwrap().1 == pos + text_item(t).len(),
{
    let mut d = minicbor::Decoder::new(b);
    d.set_position(pos);
    match d.str() {
        Ok(s) => Some((s.to_string(), d.position())),
        Err(_) => None,
    }
}

/// Relies on minicbor's `Encoder::u32`: it appends the shortest head.
#[verifier::external_body]
fn cbor_put_u32(buf: &mut Vec<u8>, v: u32)
    ensures
        final(buf)@ == old(buf)@ + uint_item(v as nat),
{
    let _ = minicbor::Encoder::new(buf).u32(v);
}

/// Relies on minicbor's `Encoder::map`: it appends the shortest map head.
#[verifier::external_body]
fn cbor_put_map(buf: &mut Vec<u8>, n: u64)
    ensures
        final(buf)@ == old(buf)@ + head(MAJOR_MAP, n as nat),
{
    let _ = minicbor::Encoder::new(buf).map(n);
}

/// Relies on minicbor's `Encoder::str`: it appends the shortest text head for
/// the UTF-8 length, then the UTF-8 bytes.
#[verifier::external_body]
fn cbor_put_str(buf: &mut Vec<u8>, s: &str)
    ensures
        final(buf)@ == old(buf)@ + text_item(s@),
{
    let _ = minicbor::Encoder::new(buf).str(s);
}

/// The length of the shortest head for `v`.
fn head_len(v: u64) -> (r: usize)
    ensures
        r == head(MAJOR_UINT, v as nat).len(),
        r == head(MAJOR_TEXT, v as nat).len(),
        r == head(MAJOR_MAP, v as nat).len(),
{
    if v < 24 {
        1
    } else if v < 0x100 {
        2
    } else if v < 0x1_0000 {
        3
    } else if v < 0x1_0000_0000 {
        5
    } else {
        9
    }
}

/// Appends a canonical unsigned integer.
pub fn put_uint(buf: &mut Vec<u8>, v: u32)
    ensures
        final(buf)@ == old(buf)@ + uint_item(v as nat),
{
    cbor_put_u32(buf, v);
}

/// Appends a canonical map head announcing `n` entries.
pub fn put_map(buf: &mut Vec<u8>, n: u64)
    ensures
        final(buf)@ == old(buf)@ + head(MAJOR_MAP, n as nat),
{
    cbor_put_map(buf, n);
}

/// Appends a canonical text string.
pub fn put_text(buf: &mut Vec<u8>, s: &String)
    ensures
        final(buf)@ == old(buf)@ + text_item(s@),
{
    cbor_put_str(buf, s.as_str());
}

/// Reads a canonical unsigned integer at `pos`.
pub fn take_uint(b: &[u8], pos: usize) -> (r: Option<(u32, usize)>)
    ensures
        r matches Some((v, e)) ==> e == pos + uint_item(v as nat).len() && starts_with(
            b@,
            pos as int,
            uint_item(v as nat),
        ),
        forall|v: u32|
            #[trigger] starts_with(b@, pos as int, uint_item(v as nat)) ==> r == Some(
                (v, (pos + uint_item(v as nat).len()) as usize),
            ),
{
    let _len = b.len();
    match cbor_u32_at(b, pos) {
        Some((v, e)) => {
            if e - pos == head_len(v as u64) {
                Some((v, e))
            } else {
                None
            }
        },
        None => None,
    }
}

/// Reads the canonical unsigned integer `want` at `pos`, and returns where it
/// ends.
pub fn expect_uint(b: &[u8], pos: usize, want: u32) -> (r: Option<usize>)
    ensures
        starts_with(b@, pos as int, uint_item(want as nat)) <==> r is Some,
        r matches Some(e) ==> e == pos + uint_item(want as nat).len(),
{
    match take_uint(b, pos) {
        Some((v, e)) => {
            if v == want {
                Some(e)
            } else {
                None
            }
        },
        None => None,
    }
}

/// Reads a canonical definite-length map head at `pos`.
pub fn take_map(b: &[u8], pos: usize) -> (r: Option<(u64, usize)>)
    ensures
        r matches Some((n, e)) ==> e == pos + head(MAJOR_MAP, n as nat).len() && starts_with(
            b@,
            pos as int,
            head(MAJOR_MAP, n as nat),
        ),
        forall|n: u64|
            #[trigger] starts_with(b@, pos as int, head(MAJOR_MAP, n as nat)) ==> r == Some(
                (n, (pos + head(MAJOR_MAP, n as nat).len()) as usize),
            ),
{
    let _len = b.len();
    match cbor_map_at(b, pos) {
        Some((Some(n), e)) => {
            if e - pos == head_len(n) {
                Some((n, e))
            } else {
                None
            }
        },
        _ => None,
    }
}

/// Reads a canonical map head announcing exactly `want` entries.
pub fn expect_map(b: &[u8], pos: usize, want: u64) -> (r: Option<usize>)
    ensures
        starts_with(b@, pos as int, head(MAJOR_MAP, want as nat)) <==> r is Some,
        r matches Some(e) ==> e == pos + head(MAJOR_MAP, want as nat).len(),
{
    match take_map(b, pos) {
        Some((n, e)) => {
            if n == want {
                Some(e)
            } else {
                None
            }
        },
        None => None,
    }
}

/// Reads a canonical text string at `pos`.
pub fn take_text(b: &[u8], pos: usize) -> (r: Option<(String, usize)>)
    ensures
        r matches Some((s, e)) ==> e == pos + text_item(s@).len() && starts_with(
            b@,
            pos as int,
            text_item(s@),
        ),
        forall|t: Seq<char>|
            #[trigger] starts_with(b@, pos as int, text_item(t)) ==> r is Some && r.unwrap().0@ == t
                && r.unwrap().1 == pos + text_item(t).len(),
{
    let _len = b.len();
    let got = cbor_str_at(b, pos);
    match got {
        Some((s, e)) => {
            let n = s.as_str().len();
            let h = head_len(n as u64);
            proof {
                lemma_text_item_len(s@);
            }
            let used = e - pos;
            if n <= used && used - n == h {
                Some((s, e))
            } else {
                None
            }
        },
        None => None,
    }
}

} // verus!
