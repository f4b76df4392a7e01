//! Wire protocol: length-prefixed frames of NUL-delimited fields.
//!
//! Every post-handshake message travels as a frame: a 4-byte big-endian
//! payload length followed by the payload.  A payload is a sequence of UTF-8
//! tokens, each followed by a single NUL byte.  This module verifies framing,
//! reassembly of frames from a growing buffer, field splitting, and typed
//! field consumption, together with their round-trip laws.

use vstd::prelude::*;
use vstd::string::StringExecFns;
use vstd::utf8::{encode_scalar, encode_utf8, is_ascii_chars, valid_utf8};

use crate::text::{
    ascii_bytes, digit_char, parse_i32_bytes, parse_u32_bytes, spec_bool_text, spec_i32_text,
    spec_parse_i32, spec_parse_u32, spec_token_text, spec_u32_text, token_text,
};

verus! {

/// The four big-endian bytes of a 32-bit length.
pub open spec fn spec_be_bytes(x: u32) -> Seq<u8> {
    seq![(x >> 24) as u8, ((x >> 16) & 0xFF) as u8, ((x >> 8) & 0xFF) as u8, (x & 0xFF) as u8]
}

/// The value of four big-endian bytes.
pub open spec fn spec_be32(b: Seq<u8>) -> int
    recommends
        b.len() == 4,
{
    b[0] * 0x100_0000 + b[1] * 0x1_0000 + b[2] * 0x100 + b[3]
}

/// Read a 32-bit unsigned value from four big-endian bytes.
pub fn u32_from_be(b0: u8, b1: u8, b2: u8, b3: u8) -> (r: u32)
    ensures
        r == spec_be32(seq![b0, b1, b2, b3]),
{
    (b0 as u32) * 0x100_0000 + (b1 as u32) * 0x1_0000 + (b2 as u32) * 0x100 + (b3 as u32)
}

/// A length survives the trip through its four header bytes.
pub proof fn lemma_be_round_trip(x: u32)
    ensures
        spec_be32(spec_be_bytes(x)) == x,
{
    assert((x >> 24) <= 0xFF && ((x >> 16) & 0xFF) <= 0xFF && ((x >> 8) & 0xFF) <= 0xFF && (x
        & 0xFF) <= 0xFF) by (bit_vector);
    assert(((x >> 24) as u8) == (x >> 24) && (((x >> 16) & 0xFF) as u8) == ((x >> 16) & 0xFF) && (((
    x >> 8) & 0xFF) as u8) == ((x >> 8) & 0xFF) && ((x & 0xFF) as u8) == (x & 0xFF))
        by (bit_vector);
    assert((x >> 24) * 0x100_0000 + ((x >> 16) & 0xFF) * 0x1_0000 + ((x >> 8) & 0xFF) * 0x100 + (x
        & 0xFF) == x) by (bit_vector);
}

/// A payload on the wire: its big-endian length, then its bytes.
pub open spec fn spec_frame(p: Seq<u8>) -> Seq<u8>
    recommends
        p.len() <= u32::MAX,
{
    spec_be_bytes(p.len() as u32) + p
}

/// What a reassembly buffer yields: `None` until the four header bytes and the
/// declared number of payload bytes have all arrived, otherwise the payload
/// and the untouched remainder.
pub open spec fn spec_extract(buf: Seq<u8>) -> Option<(Seq<u8>, Seq<u8>)> {
    if buf.len() < 4 {
        None
    } else {
        let len = spec_be32(buf.subrange(0, 4));
        if buf.len() - 4 >= len {
            Some((buf.subrange(4, 4 + len), buf.skip(4 + len)))
        } else {
            None
        }
    }
}

/// Prefix a payload with its 4-byte big-endian length.
pub fn encode_frame(payload: &[u8]) -> (r: Vec<u8>)
    requires
        payload@.len() <= u32::MAX,
    ensures
        r@ == spec_frame(payload@),
{
    let len: u32 = payload.len() as u32;
    let mut r: Vec<u8> = Vec::new();
    r.push((len >> 24) as u8);
    r.push(((len >> 16) & 0xFF) as u8);
    r.push(((len >> 8) & 0xFF) as u8);
    r.push((len & 0xFF) as u8);
    r.extend_from_slice(payload);
    proof {
        assert(r@ =~= spec_frame(payload@));
    }
    r
}

/// Extract one complete frame from the front of a reassembly buffer, if the
/// buffer holds one, returning the payload and the remaining bytes.
pub fn extract_message(buf: &[u8]) -> (r: Option<(Vec<u8>, Vec<u8>)>)
    ensures
        r is Some <==> spec_extract(buf@) is Some,
        r is Some ==> (r->0).0@ == (spec_extract(buf@)->0).0 && (r->0).1@ == (spec_extract(
            buf@,
        )->0).1,
{
    if buf.len() < 4 {
        return None;
    }
    let len_word = u32_from_be(buf[0], buf[1], buf[2], buf[3]);
    proof {
        assert(seq![buf@[0], buf@[1], buf@[2], buf@[3]] =~= buf@.subrange(0, 4));
    }
    let len = len_word as usize;
    if buf.len() - 4 >= len {
        let msg = vstd::slice::slice_to_vec(vstd::slice::slice_subrange(buf, 4, 4 + len));
        let rest = vstd::slice::slice_to_vec(
            vstd::slice::slice_subrange(buf, 4 + len, buf.len()),
        );
        proof {
            assert(msg@ =~= (spec_extract(buf@)->0).0);
            assert(rest@ =~= (spec_extract(buf@)->0).1);
        }
        Some((msg, rest))
    } else {
        None
    }
}

/// Frame round trip: extracting from exactly one encoded frame yields the
/// original payload and an empty remainder.
pub proof fn lemma_frame_round_trip(p: Seq<u8>)
    requires
        p.len() <= u32::MAX,
    ensures
        spec_extract(spec_frame(p)) == Some((p, Seq::<u8>::empty())),
{
    let f = spec_frame(p);
    lemma_be_round_trip(p.len() as u32);
    assert(f.subrange(0, 4) =~= spec_be_bytes(p.len() as u32));
    assert(f.subrange(4, 4 + p.len() as int) =~= p);
    assert(f.skip(4 + p.len() as int) =~= Seq::<u8>::empty());
}

/// Partial-read reassembly: a frame split at any byte boundary and fed as two
/// buffer appends yields the same extraction as a single-shot feed.
pub proof fn lemma_partial_read_reassembly(p: Seq<u8>, k: int)
    requires
        p.len() <= u32::MAX,
        0 <= k <= spec_frame(p).len(),
    ensures
        spec_frame(p).take(k) + spec_frame(p).skip(k) == spec_frame(p),
        spec_extract(spec_frame(p).take(k) + spec_frame(p).skip(k)) == Some((
            p,
            Seq::<u8>::empty(),
        )),
{
    assert(spec_frame(p).take(k) + spec_frame(p).skip(k) =~= spec_frame(p));
    lemma_frame_round_trip(p);
}

/// Split a payload into fields: `cur` is the token read so far, each NUL byte
/// ends a token, and a nonempty unterminated tail is kept while the empty
/// trailing token left by the final NUL is dropped.
pub open spec fn split_acc(s: Seq<u8>, cur: Seq<u8>) -> Seq<Seq<u8>>
    decreases s.len(),
{
    if s.len() == 0 {
        if cur.len() == 0 {
            Seq::empty()
        } else {
            seq![cur]
        }
    } else if s[0] == 0u8 {
        seq![cur] + split_acc(s.skip(1), Seq::empty())
    } else {
        split_acc(s.skip(1), cur.push(s[0]))
    }
}

/// The field sequence of a payload.
pub open spec fn spec_fields(s: Seq<u8>) -> Seq<Seq<u8>> {
    split_acc(s, Seq::empty())
}

/// The byte views of a vector of tokens.
pub open spec fn seq_views(s: Seq<Vec<u8>>) -> Seq<Seq<u8>> {
    Seq::new(s.len(), |i: int| s[i]@)
}

/// Split a payload on NUL bytes into its field tokens.
fn split_fields(buf: &[u8]) -> (r: Vec<Vec<u8>>)
    ensures
        seq_views(r@) == spec_fields(buf@),
{
    let mut r: Vec<Vec<u8>> = Vec::new();
    let mut cur: Vec<u8> = Vec::new();
    let mut i: usize = 0;
    proof {
        assert(buf@.skip(0) =~= buf@);
        assert(seq_views(r@) + split_acc(buf@, Seq::empty()) =~= split_acc(buf@, Seq::empty()));
    }
    while i < buf.len()
        invariant
            i <= buf@.len(),
            spec_fields(buf@) == seq_views(r@) + split_acc(buf@.skip(i as int), cur@),
        decreases buf@.len() - i,
    {
        let ghost prev_r = r@;
        let ghost prev_cur = cur@;
        let b = buf[i];
        proof {
            assert(buf@.skip(i as int)[0] == buf@[i as int]);
            assert(buf@.skip(i as int).skip(1) =~= buf@.skip(i + 1));
        }
        if b == 0 {
            r.push(cur);
            cur = Vec::new();
            proof {
                assert(seq_views(r@) =~= seq_views(prev_r).push(prev_cur));
                assert(seq_views(prev_r) + (seq![prev_cur] + split_acc(
                    buf@.skip(i + 1),
                    Seq::empty(),
                )) =~= seq_views(r@) + split_acc(buf@.skip(i + 1), cur@));
            }
        } else {
            cur.push(b);
        }
        i += 1;
    }
    proof {
        assert(buf@.skip(buf@.len() as int) =~= Seq::<u8>::empty());
    }
    if cur.len() > 0 {
        let ghost prev_r = r@;
        let ghost prev_cur = cur@;
        r.push(cur);
        proof {
            assert(seq_views(r@) =~= seq_views(prev_r).push(prev_cur));
            assert(seq_views(prev_r) + seq![prev_cur] =~= seq_views(r@));
        }
    } else {
        proof {
            assert(seq_views(r@) + Seq::<Seq<u8>>::empty() =~= seq_views(r@));
        }
    }
    r
}

/// Decode a payload's fields as text, one string per token; a token that is
/// not valid UTF-8 degrades to the empty string.
pub fn parse_fields(buf: &[u8]) -> (r: Vec<String>)
    ensures
        r@.len() == spec_fields(buf@).len(),
        forall|i: int|
            0 <= i < r@.len() ==> #[trigger] r@[i]@ == spec_token_text(spec_fields(buf@)[i]),
{
    let tokens = split_fields(buf);
    let mut r: Vec<String> = Vec::new();
    let mut i: usize = 0;
    while i < tokens.len()
        invariant
            i <= tokens@.len(),
            seq_views(tokens@) == spec_fields(buf@),
            r@.len() == i,
            forall|j: int|
                0 <= j < i ==> #[trigger] r@[j]@ == spec_token_text(spec_fields(buf@)[j]),
        decreases tokens@.len() - i,
    {
        let t = tokens[i].clone();
        proof {
            assert(t@ == seq_views(tokens@)[i as int]);
        }
        r.push(token_text(t));
        i += 1;
    }
    r
}

/// Sequential, typed consumption of a frame's fields.
///
/// The cursor keeps every token, including empty ones, so that positional
/// fields stay aligned; a missing or malformed numeric token reads as 0
/// rather than failing the message.
pub struct FieldIterator {
    fields: Vec<Vec<u8>>,
    position: usize,
}

impl FieldIterator {
    /// The field tokens, as byte sequences.
    pub closed spec fn tokens(&self) -> Seq<Seq<u8>> {
        seq_views(self.fields@)
    }

    /// The cursor: how many tokens have been consumed.
    pub closed spec fn pos(&self) -> int {
        self.position as int
    }

    pub open spec fn wf(&self) -> bool {
        0 <= self.pos() <= self.tokens().len()
    }

    /// Split a payload and place the cursor on its first field.
    pub fn new(buf: &[u8]) -> (r: Self)
        ensures
            r.tokens() == spec_fields(buf@),
            r.pos() == 0,
            r.wf(),
    {
        FieldIterator { fields: split_fields(buf), position: 0 }
    }

    /// The next field as text; `None` once the fields are exhausted.
    pub fn next_string(&mut self) -> (r: Option<String>)
        requires
            old(self).wf(),
        ensures
            final(self).wf(),
            final(self).tokens() == old(self).tokens(),
            old(self).pos() < old(self).tokens().len() ==> {
                &&& final(self).pos() == old(self).pos() + 1
                &&& r is Some
                &&& r->0@ == spec_token_text(old(self).tokens()[old(self).pos()])
            },
            old(self).pos() >= old(self).tokens().len() ==> r is None && final(self).pos() == old(
                self,
            ).pos(),
    {
        if self.position < self.fields.len() {
            let t = self.fields[self.position].clone();
            proof {
                assert(t@ == old(self).tokens()[old(self).pos()]);
            }
            self.position = self.position + 1;
            Some(token_text(t))
        } else {
            None
        }
    }

    /// The next field as an unsigned number; `None` when exhausted or when the
    /// token is empty, non-numeric or out of range.
    pub fn next_u32(&mut self) -> (r: Option<u32>)
        requires
            old(self).wf(),
        ensures
            final(self).wf(),
            final(self).tokens() == old(self).tokens(),
            old(self).pos() < old(self).tokens().len() ==> {
                &&& final(self).pos() == old(self).pos() + 1
                &&& r == spec_parse_u32(old(self).tokens()[old(self).pos()])
            },
            old(self).pos() >= old(self).tokens().len() ==> r is None && final(self).pos() == old(
                self,
            ).pos(),
    {
        if self.position < self.fields.len() {
            let r = parse_u32_bytes(self.fields[self.position].as_slice());
            proof {
                assert(self.fields@[self.position as int]@ == old(self).tokens()[old(self).pos()]);
            }
            self.position = self.position + 1;
            r
        } else {
            None
        }
    }

    /// The next field as a signed number, 0 for an absent, empty or malformed
    /// token.
    pub fn next_i32(&mut self) -> (r: i32)
        requires
            old(self).wf(),
        ensures
            final(self).wf(),
            final(self).tokens() == old(self).tokens(),
            old(self).pos() < old(self).tokens().len() ==> {
                &&& final(self).pos() == old(self).pos() + 1
                &&& r == spec_parse_i32(old(self).tokens()[old(self).pos()])
            },
            old(self).pos() >= old(self).tokens().len() ==> r == 0 && final(self).pos() == old(
                self,
            ).pos(),
    {
        if self.position < self.fields.len() {
            let r = parse_i32_bytes(self.fields[self.position].as_slice());
            proof {
                assert(self.fields@[self.position as int]@ == old(self).tokens()[old(self).pos()]);
            }
            self.position = self.position + 1;
            r
        } else {
            0
        }
    }

    /// The next field as a boolean: 0 (and every absent or malformed token) is
    /// false, any other number is true.
    pub fn next_bool(&mut self) -> (r: bool)
        requires
            old(self).wf(),
        ensures
            final(self).wf(),
            final(self).tokens() == old(self).tokens(),
            old(self).pos() < old(self).tokens().len() ==> {
                &&& final(self).pos() == old(self).pos() + 1
                &&& r == (spec_parse_i32(old(self).tokens()[old(self).pos()]) != 0)
            },
            old(self).pos() >= old(self).tokens().len() ==> r == false && final(self).pos() == old(
                self,
            ).pos(),
    {
        let v = self.next_i32();
        v != 0
    }

    /// Skip `n` fields, stopping at the end.
    pub fn skip(&mut self, n: usize)
        requires
            old(self).wf(),
        ensures
            final(self).wf(),
            final(self).tokens() == old(self).tokens(),
            final(self).pos() == if old(self).pos() + n <= old(self).tokens().len() {
                old(self).pos() + n
            } else {
                old(self).tokens().len() as int
            },
    {
        if n >= self.fields.len() - self.position {
            self.position = self.fields.len();
        } else {
            self.position = self.position + n;
        }
    }

    /// The unconsumed fields, decoded as text.
    pub fn remaining(&self) -> (r: Vec<String>)
        requires
            self.wf(),
        ensures
            r@.len() == self.tokens().len() - self.pos(),
            forall|i: int|
                0 <= i < r@.len() ==> #[trigger] r@[i]@ == spec_token_text(
                    self.tokens()[self.pos() + i],
                ),
    {
        let mut r: Vec<String> = Vec::new();
        let mut i: usize = self.position;
        while i < self.fields.len()
            invariant
                self.position <= i <= self.fields@.len(),
                self.wf(),
                r@.len() == i - self.position,
                forall|j: int|
                    0 <= j < r@.len() ==> #[trigger] r@[j]@ == spec_token_text(
                        self.tokens()[self.pos() + j],
                    ),
            decreases self.fields@.len() - i,
        {
            let t = self.fields[i].clone();
            proof {
                assert(t@ == self.tokens()[i as int]);
            }
            r.push(token_text(t));
            i += 1;
        }
        r
    }
}

/// One NUL-terminated field: the value's text followed by the NUL separator.
pub fn make_field(value: &str) -> (r: String)
    ensures
        r@ == value@.push('\0'),
{
    let mut s = value.to_owned();
    s.append("\0");
    proof {
        reveal_strlit("\0");
        assert(s@ =~= value@.push('\0'));
    }
    s
}

/// A payload: each field's text followed by a NUL separator.
pub open spec fn spec_message(fields: Seq<Seq<char>>) -> Seq<char>
    decreases fields.len(),
{
    if fields.len() == 0 {
        Seq::empty()
    } else {
        fields[0].push('\0') + spec_message(fields.skip(1))
    }
}

/// The character views of a vector of strings.
pub open spec fn str_views(s: Seq<String>) -> Seq<Seq<char>> {
    Seq::new(s.len(), |i: int| s[i]@)
}

/// Build a payload from fields, terminating each with NUL.
pub fn make_message(fields: &[String]) -> (r: String)
    ensures
        r@ == spec_message(str_views(fields@)),
{
    let ghost views = str_views(fields@);
    let mut s = String::new();
    let mut i: usize = 0;
    proof {
        assert(views.skip(0) =~= views);
        assert(s@ + spec_message(views) =~= spec_message(views));
    }
    while i < fields.len()
        invariant
            i <= fields@.len(),
            views == str_views(fields@),
            spec_message(views) == s@ + spec_message(views.skip(i as int)),
        decreases fields@.len() - i,
    {
        let ghost prev = s@;
        proof {
            assert(views.skip(i as int)[0] == views[i as int]);
            assert(views.skip(i as int).skip(1) =~= views.skip(i + 1));
        }
        s.append(fields[i].as_str());
        s.append("\0");
        proof {
            reveal_strlit("\0");
            assert(s@ =~= prev + views[i as int].push('\0'));
            assert(prev + (views[i as int].push('\0') + spec_message(views.skip(i + 1))) =~= s@
                + spec_message(views.skip(i + 1)));
        }
        i += 1;
    }
    proof {
        assert(views.skip(views.len() as int) =~= Seq::<Seq<char>>::empty());
        assert(s@ + Seq::<char>::empty() =~= s@);
    }
    s
}

/// The bytes of a joined token sequence: each token followed by a NUL byte.
pub open spec fn spec_join(tokens: Seq<Seq<u8>>) -> Seq<u8>
    decreases tokens.len(),
{
    if tokens.len() == 0 {
        Seq::empty()
    } else {
        tokens[0] + seq![0u8] + spec_join(tokens.skip(1))
    }
}

pub open spec fn nul_free_bytes(t: Seq<u8>) -> bool {
    forall|i: int| 0 <= i < t.len() ==> #[trigger] t[i] != 0u8
}

pub open spec fn nul_free_chars(t: Seq<char>) -> bool {
    forall|i: int| 0 <= i < t.len() ==> #[trigger] t[i] != '\0'
}

/// Splitting consumes one NUL-free token and its NUL terminator at a time.
proof fn lemma_split_acc_token(a: Seq<u8>, rest: Seq<u8>, cur: Seq<u8>)
    requires
        nul_free_bytes(a),
    ensures
        split_acc(a + seq![0u8] + rest, cur) == seq![cur + a] + split_acc(rest, Seq::empty()),
    decreases a.len(),
{
    let s = a + seq![0u8] + rest;
    if a.len() == 0 {
        assert(s[0] == 0u8);
        assert(s.skip(1) =~= rest);
        assert(cur + a =~= cur);
    } else {
        assert(s[0] == a[0]);
        assert(s.skip(1) =~= a.skip(1) + seq![0u8] + rest);
        assert(nul_free_bytes(a.skip(1)));
        lemma_split_acc_token(a.skip(1), rest, cur.push(a[0]));
        assert(cur.push(a[0]) + a.skip(1) =~= cur + a);
    }
}

/// Field round trip at the byte level: splitting the join of NUL-free tokens
/// yields the tokens back, in order.
pub proof fn lemma_fields_of_join(tokens: Seq<Seq<u8>>)
    requires
        forall|i: int| 0 <= i < tokens.len() ==> nul_free_bytes(#[trigger] tokens[i]),
    ensures
        spec_fields(spec_join(tokens)) == tokens,
    decreases tokens.len(),
{
    if tokens.len() == 0 {
    } else {
        lemma_split_acc_token(tokens[0], spec_join(tokens.skip(1)), Seq::empty());
        lemma_fields_of_join(tokens.skip(1));
        assert(Seq::<u8>::empty() + tokens[0] =~= tokens[0]);
        assert(seq![tokens[0]] + tokens.skip(1) =~= tokens);
    }
}

/// The bytes of an ASCII message are its fields' bytes joined with NUL bytes.
pub proof fn lemma_message_bytes(fields: Seq<Seq<char>>)
    requires
        forall|i: int| 0 <= i < fields.len() ==> is_ascii_chars(#[trigger] fields[i]),
        forall|i: int| 0 <= i < fields.len() ==> nul_free_chars(#[trigger] fields[i]),
    ensures
        is_ascii_chars(spec_message(fields)),
        ascii_bytes(spec_message(fields)) == spec_join(
            fields.map_values(|f: Seq<char>| ascii_bytes(f)),
        ),
    decreases fields.len(),
{
    let mapped = fields.map_values(|f: Seq<char>| ascii_bytes(f));
    if fields.len() == 0 {
        assert(ascii_bytes(spec_message(fields)) =~= Seq::<u8>::empty());
    } else {
        lemma_message_bytes(fields.skip(1));
        assert(fields.skip(1).map_values(|f: Seq<char>| ascii_bytes(f)) =~= mapped.skip(1));
        assert(is_ascii_chars(spec_message(fields))) by {
            let m = fields[0].push('\0') + spec_message(fields.skip(1));
            assert forall|i: int| 0 <= i < m.len() implies '\0' <= #[trigger] m[i] <= '\u{7f}' by {
                if i < fields[0].len() {
                    assert(m[i] == fields[0][i]);
                } else if i == fields[0].len() {
                    assert(m[i] == '\0');
                }
            }
        }
        assert(ascii_bytes(spec_message(fields)) =~= mapped[0] + seq![0u8] + ascii_bytes(
            spec_message(fields.skip(1)),
        )) by {
            let m = spec_message(fields);
            assert forall|i: int| 0 <= i < m.len() implies #[trigger] ascii_bytes(m)[i] == (
            mapped[0] + seq![0u8] + ascii_bytes(spec_message(fields.skip(1))))[i] by {
                if i < fields[0].len() {
                    assert(m[i] == fields[0][i]);
                } else if i == fields[0].len() {
                    assert(m[i] == '\0');
                } else {
                    assert(m[i] == spec_message(fields.skip(1))[i - fields[0].len() - 1]);
                }
            }
        }
    }
}

/// Field round trip, end to end: the fields of an encoded ASCII message are
/// exactly the original tokens' bytes, and each decodes back to its text.
pub proof fn lemma_field_round_trip(fields: Seq<Seq<char>>)
    requires
        forall|i: int| 0 <= i < fields.len() ==> is_ascii_chars(#[trigger] fields[i]),
        forall|i: int| 0 <= i < fields.len() ==> nul_free_chars(#[trigger] fields[i]),
    ensures
        spec_fields(encode_utf8(spec_message(fields))) == fields.map_values(
            |f: Seq<char>| ascii_bytes(f),
        ),
        forall|i: int|
            0 <= i < fields.len() ==> spec_token_text(ascii_bytes(#[trigger] fields[i]))
                == fields[i],
{
    let mapped = fields.map_values(|f: Seq<char>| ascii_bytes(f));
    lemma_message_bytes(fields);
    vstd::utf8::is_ascii_chars_encode_utf8(spec_message(fields));
    assert(encode_utf8(spec_message(fields)) =~= ascii_bytes(spec_message(fields)));
    assert forall|i: int| 0 <= i < mapped.len() implies nul_free_bytes(#[trigger] mapped[i]) by {
        let f = fields[i];
        assert forall|j: int| 0 <= j < mapped[i].len() implies #[trigger] mapped[i][j] != 0u8 by {
            assert(f[j] != '\0' && '\0' <= f[j] <= '\u{7f}');
            assert(f[j] as u8 != 0u8) by {
                vstd::utf8::char_is_scalar(f[j]);
            }
        }
    }
    lemma_fields_of_join(mapped);
    assert forall|i: int| 0 <= i < fields.len() implies spec_token_text(
        ascii_bytes(#[trigger] fields[i]),
    ) == fields[i] by {
        vstd::utf8::is_ascii_chars_encode_utf8(fields[i]);
        assert(encode_utf8(fields[i]) =~= ascii_bytes(fields[i]));
        vstd::utf8::encode_utf8_valid_utf8(fields[i]);
        vstd::utf8::encode_utf8_decode_utf8(fields[i]);
    }
}

/// A character other than NUL encodes to bytes that are all nonzero: only the
/// NUL character ever puts a NUL byte on the wire.
proof fn lemma_encode_scalar_nul_free(c: char)
    requires
        c != '\0',
    ensures
        nul_free_bytes(encode_scalar(c as u32)),
{
    let v = c as u32;
    assert(v != 0);
    if vstd::utf8::has_width_1_encoding(v) {
        assert((v & 0x7F) as u8 != 0) by (bit_vector)
            requires
                v != 0 && v < 0x80,
        ;
    } else {
        assert((0xC0 | ((v >> 6) & 0x1F) as u8) != 0) by (bit_vector);
        assert((0xE0 | ((v >> 12) & 0x0F) as u8) != 0) by (bit_vector);
        assert((0xF0 | ((v >> 18) & 0x7) as u8) != 0) by (bit_vector);
        assert((0x80 | (v & 0x3F) as u8) != 0) by (bit_vector);
        assert((0x80 | ((v >> 6) & 0x3F) as u8) != 0) by (bit_vector);
        assert((0x80 | ((v >> 12) & 0x3F) as u8) != 0) by (bit_vector);
    }
}

/// NUL-free text encodes to NUL-free bytes.
proof fn lemma_encode_utf8_nul_free(t: Seq<char>)
    requires
        nul_free_chars(t),
    ensures
        nul_free_bytes(encode_utf8(t)),
    decreases t.len(),
{
    if t.len() > 0 {
        lemma_encode_scalar_nul_free(t[0]);
        assert(nul_free_chars(t.drop_first())) by {
            assert forall|i: int| 0 <= i < t.drop_first().len() implies #[trigger] t.drop_first()[i]
                != '\0' by {
                assert(t.drop_first()[i] == t[i + 1]);
            }
        }
        lemma_encode_utf8_nul_free(t.drop_first());
        let head = encode_scalar(t[0] as u32);
        let e = encode_utf8(t);
        assert forall|i: int| 0 <= i < e.len() implies #[trigger] e[i] != 0u8 by {
            if i < head.len() {
                assert(e[i] == head[i]);
            } else {
                assert(e[i] == encode_utf8(t.drop_first())[i - head.len()]);
            }
        }
    }
}

/// UTF-8 encoding distributes over concatenation.
proof fn lemma_encode_utf8_concat(a: Seq<char>, b: Seq<char>)
    ensures
        encode_utf8(a + b) == encode_utf8(a) + encode_utf8(b),
    decreases a.len(),
{
    if a.len() == 0 {
        assert(a + b =~= b);
        assert(encode_utf8(a) + encode_utf8(b) =~= encode_utf8(b));
    } else {
        assert((a + b)[0] == a[0]);
        assert((a + b).drop_first() =~= a.drop_first() + b);
        lemma_encode_utf8_concat(a.drop_first(), b);
        assert(encode_scalar(a[0] as u32) + (encode_utf8(a.drop_first()) + encode_utf8(b)) =~= (
        encode_scalar(a[0] as u32) + encode_utf8(a.drop_first())) + encode_utf8(b));
    }
}

/// The bytes of a message are its fields' encodings joined with NUL bytes.
proof fn lemma_message_bytes_utf8(fields: Seq<Seq<char>>)
    ensures
        encode_utf8(spec_message(fields)) == spec_join(
            fields.map_values(|f: Seq<char>| encode_utf8(f)),
        ),
    decreases fields.len(),
{
    let mapped = fields.map_values(|f: Seq<char>| encode_utf8(f));
    if fields.len() == 0 {
        assert(encode_utf8(spec_message(fields)) =~= Seq::<u8>::empty());
    } else {
        assert(fields[0].push('\0') =~= fields[0] + seq!['\0']);
        lemma_encode_utf8_concat(fields[0] + seq!['\0'], spec_message(fields.skip(1)));
        lemma_encode_utf8_concat(fields[0], seq!['\0']);
        assert(encode_utf8(seq!['\0']) =~= seq![0u8]) by {
            let s = seq!['\0'];
            let z = '\0' as u32;
            assert(z == 0);
            assert(s.drop_first() =~= Seq::<char>::empty());
            assert(encode_utf8(Seq::<char>::empty()) =~= Seq::<u8>::empty());
            assert((z & 0x7F) as u8 == 0) by (bit_vector)
                requires
                    z == 0,
            ;
            assert(encode_scalar(z) =~= seq![0u8]);
            assert(encode_utf8(s) =~= encode_scalar(z) + Seq::<u8>::empty());
        }
        lemma_message_bytes_utf8(fields.skip(1));
        assert(fields.skip(1).map_values(|f: Seq<char>| encode_utf8(f)) =~= mapped.skip(1));
        assert((encode_utf8(fields[0]) + seq![0u8]) + spec_join(mapped.skip(1)) =~= encode_utf8(
            fields[0],
        ) + seq![0u8] + spec_join(mapped.skip(1)));
        assert(encode_utf8(spec_message(fields)) =~= mapped[0] + seq![0u8] + spec_join(
            mapped.skip(1),
        ));
    }
}

/// Field round trip for any NUL-free fields, ASCII or not: the fields of an
/// encoded message are exactly the original tokens' encodings, and each
/// decodes back to its text.
pub proof fn lemma_field_round_trip_utf8(fields: Seq<Seq<char>>)
    requires
        forall|i: int| 0 <= i < fields.len() ==> nul_free_chars(#[trigger] fields[i]),
    ensures
        spec_fields(encode_utf8(spec_message(fields))) == fields.map_values(
            |f: Seq<char>| encode_utf8(f),
        ),
        forall|i: int|
            0 <= i < fields.len() ==> spec_token_text(encode_utf8(#[trigger] fields[i]))
                == fields[i],
{
    lemma_message_bytes_utf8(fields);
    let mapped = fields.map_values(|f: Seq<char>| encode_utf8(f));
    assert forall|i: int| 0 <= i < mapped.len() implies nul_free_bytes(#[trigger] mapped[i]) by {
        lemma_encode_utf8_nul_free(fields[i]);
    }
    lemma_fields_of_join(mapped);
    assert forall|i: int| 0 <= i < fields.len() implies spec_token_text(
        encode_utf8(#[trigger] fields[i]),
    ) == fields[i] by {
        vstd::utf8::encode_utf8_valid_utf8(fields[i]);
        vstd::utf8::encode_utf8_decode_utf8(fields[i]);
    }
}

/// Decimal text is ASCII and never holds a NUL.
proof fn lemma_u32_text_plain(n: nat)
    ensures
        is_ascii_chars(spec_u32_text(n)),
        nul_free_chars(spec_u32_text(n)),
    decreases n,
{
    if n < 10 {
        assert('\0' <= digit_char(n as int) <= '\u{7f}' && digit_char(n as int) != '\0');
    } else {
        lemma_u32_text_plain(n / 10);
        let t = spec_u32_text(n);
        assert forall|i: int| 0 <= i < t.len() implies '\0' <= #[trigger] t[i] <= '\u{7f}' && t[i]
            != '\0' by {
            if i < t.len() - 1 {
                assert(t[i] == spec_u32_text(n / 10)[i]);
            } else {
                assert(t[i] == digit_char((n % 10) as int));
            }
        }
    }
}

/// Signed decimal text is ASCII and never holds a NUL.
proof fn lemma_i32_text_plain(n: int)
    ensures
        is_ascii_chars(spec_i32_text(n)),
        nul_free_chars(spec_i32_text(n)),
{
    if n >= 0 {
        lemma_u32_text_plain(n as nat);
    } else {
        lemma_u32_text_plain((-n) as nat);
        let t = spec_i32_text(n);
        assert forall|i: int| 0 <= i < t.len() implies '\0' <= #[trigger] t[i] <= '\u{7f}' && t[i]
            != '\0' by {
            if i > 0 {
                assert(t[i] == spec_u32_text((-n) as nat)[i - 1]);
            }
        }
    }
}

/// Typed field round trip: a signed number, a boolean, a text field, and the
/// empty absent-value sentinel, encoded as one message, decode back to equal
/// typed values in the same order, the sentinel reading as 0.
pub proof fn lemma_typed_field_round_trip(n: i32, b: bool, s: Seq<char>)
    requires
        is_ascii_chars(s),
        nul_free_chars(s),
    ensures
        ({
            let fields = seq![spec_i32_text(n as int), spec_bool_text(b), s, Seq::<char>::empty()];
            let toks = spec_fields(encode_utf8(spec_message(fields)));
            &&& toks.len() == 4
            &&& spec_parse_i32(toks[0]) == n
            &&& (spec_parse_i32(toks[1]) != 0) == b
            &&& spec_token_text(toks[2]) == s
            &&& spec_parse_i32(toks[3]) == 0
        }),
{
    let fields = seq![spec_i32_text(n as int), spec_bool_text(b), s, Seq::<char>::empty()];
    lemma_i32_text_plain(n as int);
    assert(spec_bool_text(b) == spec_i32_text(if b {
        1int
    } else {
        0int
    }));
    lemma_i32_text_plain(
        if b {
            1int
        } else {
            0int
        },
    );
    assert forall|i: int| 0 <= i < fields.len() implies is_ascii_chars(#[trigger] fields[i])
        && nul_free_chars(fields[i]) by {
        if i == 2 {
        } else if i == 3 {
        }
    }
    lemma_field_round_trip(fields);
    let mapped = fields.map_values(|f: Seq<char>| ascii_bytes(f));
    let toks = spec_fields(encode_utf8(spec_message(fields)));
    assert(toks == mapped);
    assert(toks[0] == ascii_bytes(spec_i32_text(n as int)));
    crate::text::lemma_parse_i32_round_trip(n);
    crate::text::lemma_parse_i32_round_trip(
        if b {
            1i32
        } else {
            0i32
        },
    );
    assert(toks[1] == ascii_bytes(spec_bool_text(b)));
    assert(spec_parse_i32(toks[1]) == if b {
        1i32
    } else {
        0i32
    });
    assert(toks[3] =~= Seq::<u8>::empty());
}

} // verus!
