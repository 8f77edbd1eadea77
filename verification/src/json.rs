//! JSON document parsing.
//!
//! The configuration and result documents of the attachment protocol
//! travel as JSON on standard input and output.  This module parses JSON
//! text into the [`Json`] model — objects keep their key order, and
//! numbers keep their raw token text — and extracts the protocol's typed
//! documents from that model with exact contracts.
//!
//! The accepted texts are deliberately restricted to ASCII: strings may
//! hold printable ASCII and the eight short escapes, and `\u` escapes
//! are not decoded.  Documents beyond that are rejected up front rather
//! than mangled; the network names, addresses and error codes these
//! documents carry are ASCII throughout.  The grammar accepted is pinned
//! below: [`json_of_bytes`] says which value a text spells, and
//! [`parse_json`] returns exactly that value or, when no accepted text is
//! there, nothing.

use vstd::prelude::*;
use crate::types::Json;

verus! {

/// Relies on String::push: appends the one character to the string.
#[verifier::external_body]
pub(crate) fn push_char(s: &mut String, c: char)
    ensures
        final(s)@ == old(s)@.push(c),
{
    s.push(c);
}

fn skip_ws(b: &[u8], pos: usize) -> (r: usize)
    requires
        pos <= b@.len(),
        b@.len() <= 0x1000_0000,
    ensures
        pos <= r <= b@.len(),
        r as int == spec_skip_ws(b@, pos as int),
{
    let n = b.len();
    let mut i = pos;
    while i < n && (b[i] == 0x20 || b[i] == 0x09 || b[i] == 0x0A || b[i] == 0x0D)
        invariant
            pos <= i <= n,
            n == b@.len(),
            spec_skip_ws(b@, pos as int) == spec_skip_ws(b@, i as int),
        decreases n - i,
    {
        i = i + 1;
    }
    i
}

/// Parses a string body starting right after the opening quote; handles
/// the simple escapes and accepts printable ASCII only.
/// The end position of a string body starting at `pos` (just after the
/// opening quote), just past the closing quote, when one is there.
pub open spec fn sb_end(b: Seq<u8>, pos: int) -> Option<int>
    decreases b.len() - pos,
{
    if pos < 0 || pos >= b.len() {
        None
    } else if b[pos] == 0x22 {
        Some(pos + 1)
    } else if b[pos] == 0x5C {
        if pos + 1 < b.len() && spec_unescape(b[pos + 1]) is Some {
            sb_end(b, pos + 2)
        } else {
            None
        }
    } else if 0x20 <= b[pos] && b[pos] < 0x7F {
        sb_end(b, pos + 1)
    } else {
        None
    }
}

#[verifier::loop_isolation(false)]
fn parse_string_body(b: &[u8], pos: usize) -> (r: Option<(String, usize)>)
    requires
        pos <= b@.len(),
        b@.len() <= 0x1000_0000,
    ensures
        (r matches Some(p) ==> pos < p.1 <= b@.len()),
        (r matches Some(p) ==> str_body_at(b@, pos as int, p.0@, p.1 as int)),
        (match r {
            Some(p) => sb_end(b@, pos as int) == Some(p.1 as int),
            None => sb_end(b@, pos as int) is None,
        }),
{
    let n = b.len();
    let mut i = pos;
    let mut out = String::new();
    loop
        invariant
            pos <= i <= n,
            n == b@.len(),
            sb_end(b@, pos as int) == sb_end(b@, i as int),
            forall|t: Seq<char>, e: int|
                #[trigger] str_body_at(b@, i as int, t, e) ==> str_body_at(
                    b@,
                    pos as int,
                    out@ + t,
                    e,
                ),
        decreases n - i,
    {
        if i >= n {
            return None;
        }
        let ghost pre_i = i as int;
        let ghost pre_out = out@;
        let c = b[i];
        if c == 0x22 {
            proof {
                assert(str_body_at(b@, i as int, Seq::<char>::empty(), i + 1));
                assert(out@ + Seq::<char>::empty() =~= out@);
            }
            return Some((out, i + 1));
        }
        if c == 0x5C {
            if i + 1 >= n {
                return None;
            }
            let e = b[i + 1];
            let dec: char = if e == 0x22 {
                '"'
            } else if e == 0x5C {
                '\\'
            } else if e == 0x2F {
                '/'
            } else if e == 0x62 {
                '\u{8}'
            } else if e == 0x66 {
                '\u{c}'
            } else if e == 0x6E {
                '\n'
            } else if e == 0x72 {
                '\r'
            } else if e == 0x74 {
                '\t'
            } else {
                proof {
                    assert(spec_unescape(b@[i + 1]) is None);
                }
                return None;
            };
            push_char(&mut out, dec);
            i = i + 2;
            proof {
                assert(spec_unescape(b@[pre_i + 1]) == Some(dec));
                assert forall|t: Seq<char>, e2: int|
                    #[trigger] str_body_at(b@, i as int, t, e2) implies str_body_at(
                    b@,
                    pos as int,
                    out@ + t,
                    e2,
                ) by {
                    let t2 = seq![dec] + t;
                    assert(t2.drop_first() =~= t);
                    assert(str_body_at(b@, pre_i, t2, e2));
                    assert(pre_out + t2 =~= out@ + t);
                }
            }
        } else if c >= 0x20 && c < 0x7F {
            push_char(&mut out, c as char);
            i = i + 1;
            proof {
                assert forall|t: Seq<char>, e2: int|
                    #[trigger] str_body_at(b@, i as int, t, e2) implies str_body_at(
                    b@,
                    pos as int,
                    out@ + t,
                    e2,
                ) by {
                    let t2 = seq![(b@[pre_i] as char)] + t;
                    assert(t2.drop_first() =~= t);
                    assert(str_body_at(b@, pre_i, t2, e2));
                    assert(pre_out + t2 =~= out@ + t);
                }
            }
        } else {
            return None;
        }
    }
}

/// The first index at or after `pos` holding no number-token byte.
pub open spec fn spec_num_end(b: Seq<u8>, pos: int) -> int
    decreases b.len() - pos,
{
    if pos < 0 || pos >= b.len() {
        b.len() as int
    } else if is_num_byte(b[pos]) {
        spec_num_end(b, pos + 1)
    } else {
        pos
    }
}

fn parse_number_token(b: &[u8], pos: usize) -> (r: Option<(String, usize)>)
    requires
        pos < b@.len(),
        b@.len() <= 0x1000_0000,
    ensures
        (r matches Some(p) ==> pos < p.1 <= b@.len()),
        (r matches Some(p) ==> num_token_at(b@, pos as int, p.0@, p.1 as int)),
        (match r {
            Some(p) => (b@[pos as int] == 0x2D || (0x30 <= b@[pos as int] && b@[pos as int]
                <= 0x39)) && p.1 as int == spec_num_end(b@, pos as int),
            None => !(b@[pos as int] == 0x2D || (0x30 <= b@[pos as int] && b@[pos as int]
                <= 0x39)),
        }),
{
    let n = b.len();
    let first = b[pos];
    if !(first == 0x2D || (0x30 <= first && first <= 0x39)) {
        return None;
    }
    let mut i = pos;
    let mut out = String::new();
    while i < n && (b[i] == 0x2B || b[i] == 0x2D || b[i] == 0x2E || b[i] == 0x65 || b[i] == 0x45
        || (0x30 <= b[i] && b[i] <= 0x39))
        invariant
            pos <= i <= n,
            n == b@.len(),
            spec_num_end(b@, pos as int) == spec_num_end(b@, i as int),
            forall|m: int| pos <= m < i ==> is_num_byte(#[trigger] b@[m]),
            out@.len() == i - pos,
            forall|m: int| 0 <= m < out@.len() ==> out@[m] == (b@[pos + m] as char),
        decreases n - i,
    {
        push_char(&mut out, b[i] as char);
        i = i + 1;
    }
    if i == pos {
        proof {
            assert(is_num_byte(b@[pos as int]));
            assert(false);
        }
        None
    } else {
        Some((out, i))
    }
}

fn expect_bytes(b: &[u8], pos: usize, w0: u8, w1: u8, w2: u8) -> (r: bool)
    requires
        pos < b@.len(),
        b@.len() <= 0x1000_0000,
    ensures
        r == (pos + 3 < b@.len() && b@[pos as int + 1] == w0 && b@[pos as int + 2] == w1
            && b@[pos as int + 3] == w2),
{
    pos + 3 < b.len() && b[pos + 1] == w0 && b[pos + 2] == w1 && b[pos + 3] == w2
}


/// First index at or after `pos` that holds no whitespace byte.
pub open spec fn spec_skip_ws(b: Seq<u8>, pos: int) -> int
    decreases b.len() - pos,
{
    if pos < 0 || pos >= b.len() {
        b.len() as int
    } else if b[pos] == 0x20 || b[pos] == 0x09 || b[pos] == 0x0A || b[pos] == 0x0D {
        spec_skip_ws(b, pos + 1)
    } else {
        pos
    }
}

pub proof fn lemma_skip_ws_idempotent(b: Seq<u8>, pos: int)
    ensures
        spec_skip_ws(b, spec_skip_ws(b, pos)) == spec_skip_ws(b, pos),
    decreases b.len() - pos,
{
    if 0 <= pos < b.len() && (b[pos] == 0x20 || b[pos] == 0x09 || b[pos] == 0x0A || b[pos]
        == 0x0D) {
        lemma_skip_ws_idempotent(b, pos + 1);
    }
}

/// The character a two-byte escape denotes, if any.
pub open spec fn spec_unescape(e: u8) -> Option<char> {
    if e == 0x22 {
        Some('"')
    } else if e == 0x5C {
        Some('\\')
    } else if e == 0x2F {
        Some('/')
    } else if e == 0x62 {
        Some('\u{8}')
    } else if e == 0x66 {
        Some('\u{c}')
    } else if e == 0x6E {
        Some('\n')
    } else if e == 0x72 {
        Some('\r')
    } else if e == 0x74 {
        Some('\t')
    } else {
        None
    }
}

/// The decoded characters of a string body lying between `pos` (just
/// after the opening quote) and `end` (just past the closing one).
pub open spec fn str_body_at(b: Seq<u8>, pos: int, s: Seq<char>, end: int) -> bool
    decreases b.len() - pos,
{
    if pos < 0 || pos >= b.len() {
        false
    } else if b[pos] == 0x22 {
        s.len() == 0 && end == pos + 1
    } else if b[pos] == 0x5C {
        pos + 1 < b.len() && (match spec_unescape(b[pos + 1]) {
            Some(c) => s.len() > 0 && s[0] == c && str_body_at(b, pos + 2, s.drop_first(), end),
            None => false,
        })
    } else if 0x20 <= b[pos] && b[pos] < 0x7F {
        s.len() > 0 && s[0] == (b[pos] as char) && str_body_at(b, pos + 1, s.drop_first(), end)
    } else {
        false
    }
}

pub open spec fn is_num_byte(x: u8) -> bool {
    x == 0x2B || x == 0x2D || x == 0x2E || x == 0x65 || x == 0x45 || (0x30 <= x && x <= 0x39)
}

/// A maximal number token between `pos` and `end`, kept as its
/// characters.
pub open spec fn num_token_at(b: Seq<u8>, pos: int, s: Seq<char>, end: int) -> bool {
    &&& 0 <= pos < b.len()
    &&& (b[pos] == 0x2D || (0x30 <= b[pos] && b[pos] <= 0x39))
    &&& pos < end <= b.len()
    &&& (forall|m: int| pos <= m < end ==> is_num_byte(#[trigger] b[m]))
    &&& (end < b.len() ==> !is_num_byte(b[end]))
    &&& s.len() == end - pos
    &&& (forall|m: int| 0 <= m < s.len() ==> s[m] == (b[pos + m] as char))
}

/// One JSON value read from `pos` — leading whitespace skipped — up to
/// exactly `end`.
pub open spec fn json_at(b: Seq<u8>, pos: int, v: Json, end: int) -> bool
    decreases v,
{
    let i = spec_skip_ws(b, pos);
    match v {
        Json::Null => i + 4 <= b.len() && b[i] == 0x6E && b[i + 1] == 0x75 && b[i + 2] == 0x6C
            && b[i + 3] == 0x6C && end == i + 4,
        Json::Bool(t) => if t {
            i + 4 <= b.len() && b[i] == 0x74 && b[i + 1] == 0x72 && b[i + 2] == 0x75 && b[i + 3]
                == 0x65 && end == i + 4
        } else {
            i + 5 <= b.len() && b[i] == 0x66 && b[i + 1] == 0x61 && b[i + 2] == 0x6C && b[i + 3]
                == 0x73 && b[i + 4] == 0x65 && end == i + 5
        },
        Json::Num(s) => num_token_at(b, i, s@, end),
        Json::Str(s) => i < b.len() && b[i] == 0x22 && str_body_at(b, i + 1, s@, end),
        Json::Arr(items) => i < b.len() && b[i] == 0x5B && arr_body_at(b, i + 1, items, end),
        Json::Obj(fields) => i < b.len() && b[i] == 0x7B && obj_body_at(b, i + 1, fields, end),
    }
}

/// Anchor for the position witnesses of the grammar relations below:
/// the quantifiers inside recursive definitions trigger on it.
pub open spec fn end_mark(m: int) -> bool {
    true
}

/// The elements of an array, from just after the opening bracket to
/// just past the closing one: element `idx` reads from `pos`, a comma
/// leads to the next element, and the bracket closes the run after the
/// last one.
pub open spec fn arr_items_at(b: Seq<u8>, pos: int, items: Vec<Json>, idx: int, end: int) -> bool
    decreases items, items.len() - idx, 1int,
{
    0 <= idx < items.len() && (exists|m: int|
        (#[trigger] end_mark(m)) && json_at(b, pos, items[idx], m) && arr_step(
            b,
            items,
            idx,
            m,
            end,
        ))
}

/// What follows one array element that ended at `m`.
pub open spec fn arr_step(b: Seq<u8>, items: Vec<Json>, idx: int, m: int, end: int) -> bool
    decreases items, items.len() - idx, 0int,
{
    &&& 0 <= idx < items.len()
    &&& {
        let w = spec_skip_ws(b, m);
        if idx == items.len() - 1 {
            w < b.len() && b[w] == 0x5D && end == w + 1
        } else {
            w < b.len() && b[w] == 0x2C && arr_items_at(b, w + 1, items, idx + 1, end)
        }
    }
}

pub open spec fn arr_body_at(b: Seq<u8>, pos: int, items: Vec<Json>, end: int) -> bool
    decreases items, items.len() + 1, 0int,
{
    if items.len() == 0 {
        let q = spec_skip_ws(b, pos);
        q < b.len() && b[q] == 0x5D && end == q + 1
    } else {
        arr_items_at(b, pos, items, 0, end)
    }
}

/// The members of an object, from just after the opening brace: member
/// `idx` is a quoted key at `pos`, a colon, and a value; a comma leads to
/// the next member, and the brace closes the run after the last one.
pub open spec fn obj_members_at(
    b: Seq<u8>,
    pos: int,
    fields: Vec<(String, Json)>,
    idx: int,
    end: int,
) -> bool
    decreases fields, fields.len() - idx, 2int,
{
    &&& 0 <= idx < fields.len()
    &&& {
        let i = spec_skip_ws(b, pos);
        &&& i < b.len() && b[i] == 0x22
        &&& exists|ke: int|
            (#[trigger] end_mark(ke)) && str_body_at(b, i + 1, fields[idx].0@, ke)
                && obj_key_step(b, fields, idx, ke, end)
    }
}

/// What follows one member's key, which ended at `ke`.
pub open spec fn obj_key_step(
    b: Seq<u8>,
    fields: Vec<(String, Json)>,
    idx: int,
    ke: int,
    end: int,
) -> bool
    decreases fields, fields.len() - idx, 1int,
{
    &&& 0 <= idx < fields.len()
    &&& {
        let w = spec_skip_ws(b, ke);
        &&& w < b.len() && b[w] == 0x3A
        &&& exists|m: int|
            (#[trigger] end_mark(m)) && json_at(b, w + 1, fields[idx].1, m) && obj_step(
                b,
                fields,
                idx,
                m,
                end,
            )
    }
}

/// What follows one member's value, which ended at `m`.
pub open spec fn obj_step(b: Seq<u8>, fields: Vec<(String, Json)>, idx: int, m: int, end: int) -> bool
    decreases fields, fields.len() - idx, 0int,
{
    &&& 0 <= idx < fields.len()
    &&& {
        let w = spec_skip_ws(b, m);
        if idx == fields.len() - 1 {
            w < b.len() && b[w] == 0x7D && end == w + 1
        } else {
            w < b.len() && b[w] == 0x2C && obj_members_at(b, w + 1, fields, idx + 1, end)
        }
    }
}

pub open spec fn obj_body_at(b: Seq<u8>, pos: int, fields: Vec<(String, Json)>, end: int) -> bool
    decreases fields, fields.len() + 1, 0int,
{
    if fields.len() == 0 {
        let q = spec_skip_ws(b, pos);
        q < b.len() && b[q] == 0x7D && end == q + 1
    } else {
        obj_members_at(b, pos, fields, 0, end)
    }
}

proof fn lemma_arr_items_intro(
    b: Seq<u8>,
    items: Vec<Json>,
    starts: Seq<int>,
    ends: Seq<int>,
    idx: int,
    end: int,
)
    requires
        starts.len() == items.len(),
        ends.len() == items.len(),
        0 <= idx < items.len(),
        forall|k: int|
            0 <= k < items.len() ==> json_at(b, #[trigger] starts[k], items[k], ends[k]),
        forall|k: int|
            0 <= k < items.len() - 1 ==> {
                let w = spec_skip_ws(b, #[trigger] ends[k]);
                w < b.len() && b[w] == 0x2C && starts[k + 1] == w + 1
            },
        ({
            let w = spec_skip_ws(b, ends[items.len() - 1]);
            w < b.len() && b[w] == 0x5D && end == w + 1
        }),
    ensures
        arr_items_at(b, starts[idx], items, idx, end),
    decreases items.len() - idx,
{
    if idx < items.len() - 1 {
        lemma_arr_items_intro(b, items, starts, ends, idx + 1, end);
    }
    assert(arr_items_at(b, starts[idx], items, idx, end)) by {
        assert(end_mark(ends[idx]));
        assert(arr_step(b, items, idx, ends[idx], end) && json_at(
            b,
            starts[idx],
            items[idx],
            ends[idx],
        ));
    }
}

proof fn lemma_obj_members_intro(
    b: Seq<u8>,
    fields: Vec<(String, Json)>,
    starts: Seq<int>,
    kends: Seq<int>,
    ends: Seq<int>,
    idx: int,
    end: int,
)
    requires
        starts.len() == fields.len(),
        kends.len() == fields.len(),
        ends.len() == fields.len(),
        0 <= idx < fields.len(),
        forall|k: int|
            0 <= k < fields.len() ==> {
                let i = spec_skip_ws(b, #[trigger] starts[k]);
                &&& i < b.len() && b[i] == 0x22
                &&& str_body_at(b, i + 1, fields[k].0@, kends[k])
                &&& {
                    let w = spec_skip_ws(b, kends[k]);
                    w < b.len() && b[w] == 0x3A && json_at(b, w + 1, fields[k].1, ends[k])
                }
            },
        forall|k: int|
            0 <= k < fields.len() - 1 ==> {
                let w = spec_skip_ws(b, #[trigger] ends[k]);
                w < b.len() && b[w] == 0x2C && starts[k + 1] == w + 1
            },
        ({
            let w = spec_skip_ws(b, ends[fields.len() - 1]);
            w < b.len() && b[w] == 0x7D && end == w + 1
        }),
    ensures
        obj_members_at(b, starts[idx], fields, idx, end),
    decreases fields.len() - idx,
{
    if idx < fields.len() - 1 {
        lemma_obj_members_intro(b, fields, starts, kends, ends, idx + 1, end);
    }
    let i = spec_skip_ws(b, starts[idx]);
    assert(obj_key_step(b, fields, idx, kends[idx], end)) by {
        assert(end_mark(ends[idx]));
        assert(obj_step(b, fields, idx, ends[idx], end) && json_at(
            b,
            spec_skip_ws(b, kends[idx]) + 1,
            fields[idx].1,
            ends[idx],
        ));
    }
    assert(obj_members_at(b, starts[idx], fields, idx, end)) by {
        assert(end_mark(kends[idx]));
        assert(obj_key_step(b, fields, idx, kends[idx], end) && str_body_at(
            b,
            i + 1,
            fields[idx].0@,
            kends[idx],
        ));
    }
}

/// A whole document: one value surrounded by nothing but whitespace.
pub open spec fn json_of_bytes(b: Seq<u8>, v: Json) -> bool {
    exists|end: int| #![auto] json_at(b, 0, v, end) && spec_skip_ws(b, end) == b.len()
}

/// A value reads the same from any position that skips to the same
/// place.
pub proof fn lemma_json_at_ws(b: Seq<u8>, p: int, q: int, v: Json, e: int)
    requires
        spec_skip_ws(b, p) == spec_skip_ws(b, q),
    ensures
        json_at(b, p, v, e) == json_at(b, q, v, e),
{
    match v {
        Json::Null => {},
        Json::Bool(_) => {},
        Json::Num(_) => {},
        Json::Str(_) => {},
        Json::Arr(_) => {},
        Json::Obj(_) => {},
    }
}

/// Positions do not move backward under whitespace skipping.
pub proof fn lemma_skip_ws_ge(b: Seq<u8>, pos: int)
    requires
        0 <= pos <= b.len(),
    ensures
        pos <= spec_skip_ws(b, pos) <= b.len(),
    decreases b.len() - pos,
{
    if pos < b.len() && (b[pos] == 0x20 || b[pos] == 0x09 || b[pos] == 0x0A || b[pos] == 0x0D) {
        lemma_skip_ws_ge(b, pos + 1);
    }
}

/// The end position of one value starting at `pos`, when the text spells
/// one: a deterministic, position-only reading of the grammar.
pub open spec fn val_end(b: Seq<u8>, pos: int) -> Option<int>
    decreases b.len() - pos, 0int,
{
    let i = spec_skip_ws(b, pos);
    if i < pos || i >= b.len() {
        None
    } else if b[i] == 0x7B {
        obj_end(b, i + 1)
    } else if b[i] == 0x5B {
        arr_end(b, i + 1)
    } else if b[i] == 0x22 {
        sb_end(b, i + 1)
    } else if b[i] == 0x74 {
        if i + 3 < b.len() && b[i + 1] == 0x72 && b[i + 2] == 0x75 && b[i + 3] == 0x65 {
            Some(i + 4)
        } else {
            None
        }
    } else if b[i] == 0x66 {
        if i + 4 < b.len() && b[i + 1] == 0x61 && b[i + 2] == 0x6C && b[i + 3] == 0x73 && b[i
            + 4] == 0x65 {
            Some(i + 5)
        } else {
            None
        }
    } else if b[i] == 0x6E {
        if i + 3 < b.len() && b[i + 1] == 0x75 && b[i + 2] == 0x6C && b[i + 3] == 0x6C {
            Some(i + 4)
        } else {
            None
        }
    } else if b[i] == 0x2D || (0x30 <= b[i] && b[i] <= 0x39) {
        Some(spec_num_end(b, i))
    } else {
        None
    }
}

/// The end of an array body read from just after its opening bracket.
pub open spec fn arr_end(b: Seq<u8>, pos: int) -> Option<int>
    decreases b.len() - pos, 2int,
{
    let q = spec_skip_ws(b, pos);
    if pos <= q < b.len() && b[q] == 0x5D {
        Some(q + 1)
    } else {
        items_end(b, pos)
    }
}

/// The end of a nonempty element run read from `pos`.
pub open spec fn items_end(b: Seq<u8>, pos: int) -> Option<int>
    decreases b.len() - pos, 1int,
{
    match val_end(b, pos) {
        None => None,
        Some(m) => if m <= pos || m > b.len() {
            None
        } else {
            let w = spec_skip_ws(b, m);
            if w < m || w >= b.len() {
                None
            } else if b[w] == 0x5D {
                Some(w + 1)
            } else if b[w] == 0x2C {
                items_end(b, w + 1)
            } else {
                None
            }
        },
    }
}

/// The end of an object body read from just after its opening brace.
pub open spec fn obj_end(b: Seq<u8>, pos: int) -> Option<int>
    decreases b.len() - pos, 2int,
{
    let q = spec_skip_ws(b, pos);
    if pos <= q < b.len() && b[q] == 0x7D {
        Some(q + 1)
    } else {
        members_end(b, pos)
    }
}

/// The end of a nonempty member run read from `pos`.
pub open spec fn members_end(b: Seq<u8>, pos: int) -> Option<int>
    decreases b.len() - pos, 1int,
{
    let i = spec_skip_ws(b, pos);
    if i < pos || i >= b.len() || b[i] != 0x22 {
        None
    } else {
        match sb_end(b, i + 1) {
            None => None,
            Some(ke) => if ke <= i + 1 || ke > b.len() {
                None
            } else {
                let w = spec_skip_ws(b, ke);
                if w < ke || w >= b.len() || b[w] != 0x3A {
                    None
                } else {
                    match val_end(b, w + 1) {
                        None => None,
                        Some(m) => if m <= w || m > b.len() {
                            None
                        } else {
                            let w2 = spec_skip_ws(b, m);
                            if w2 < m || w2 >= b.len() {
                                None
                            } else if b[w2] == 0x7D {
                                Some(w2 + 1)
                            } else if b[w2] == 0x2C {
                                members_end(b, w2 + 1)
                            } else {
                                None
                            }
                        },
                    }
                }
            },
        }
    }
}

/// A string body determines where it ends.
pub proof fn lemma_sb_rel_end(b: Seq<u8>, pos: int, t: Seq<char>, e: int)
    requires
        str_body_at(b, pos, t, e),
    ensures
        sb_end(b, pos) == Some(e),
        pos < e <= b.len(),
    decreases b.len() - pos,
{
    if b[pos] == 0x22 {
    } else if b[pos] == 0x5C {
        lemma_sb_rel_end(b, pos + 2, t.drop_first(), e);
    } else {
        lemma_sb_rel_end(b, pos + 1, t.drop_first(), e);
    }
}

proof fn lemma_num_end_at(b: Seq<u8>, from: int, e: int)
    requires
        0 <= from <= e <= b.len(),
        forall|m: int| from <= m < e ==> is_num_byte(#[trigger] b[m]),
        e < b.len() ==> !is_num_byte(b[e]),
    ensures
        spec_num_end(b, from) == e,
    decreases e - from,
{
    if from < e {
        lemma_num_end_at(b, from + 1, e);
    }
}

/// A value determines where it ends.
pub proof fn lemma_json_rel_end(b: Seq<u8>, pos: int, v: Json, e: int)
    requires
        json_at(b, pos, v, e),
    ensures
        val_end(b, pos) == Some(e),
        spec_skip_ws(b, pos) < e <= b.len(),
    decreases v, 0int,
{
    if 0 <= pos && pos <= b.len() {
        lemma_skip_ws_ge(b, pos);
    }
    let i = spec_skip_ws(b, pos);
    match v {
        Json::Null => {
            assert(pos <= i < b.len());
            assert(val_end(b, pos) == Some(i + 4));
        },
        Json::Bool(t) => {
            assert(pos <= i < b.len());
            if t {
                assert(val_end(b, pos) == Some(i + 4));
            } else {
                assert(val_end(b, pos) == Some(i + 5));
            }
        },
        Json::Num(s) => {
            assert(pos <= i < b.len());
            lemma_num_end_at(b, i, e);
            assert(val_end(b, pos) == Some(spec_num_end(b, i)));
        },
        Json::Str(s) => {
            assert(pos <= i < b.len());
            lemma_sb_rel_end(b, i + 1, s@, e);
            assert(val_end(b, pos) == sb_end(b, i + 1));
        },
        Json::Arr(items) => {
            assert(pos <= i < b.len());
            let q = spec_skip_ws(b, i + 1);
            lemma_skip_ws_ge(b, i + 1);
            if items.len() == 0 {
                assert(q < b.len() && b[q] == 0x5D && e == q + 1);
                assert(arr_end(b, i + 1) == Some(e));
            } else {
                let m = choose|m: int|
                    end_mark(m) && json_at(b, i + 1, items[0], m) && arr_step(b, items, 0, m, e);
                lemma_value_first_byte(b, i + 1, items[0], m);
                assert(b[q] != 0x5D);
                lemma_arr_items_rel_end(b, i + 1, items, 0, e);
                assert(arr_end(b, i + 1) == Some(e));
            }
            assert(val_end(b, pos) == arr_end(b, i + 1));
        },
        Json::Obj(fields) => {
            assert(pos <= i < b.len());
            let q = spec_skip_ws(b, i + 1);
            lemma_skip_ws_ge(b, i + 1);
            if fields.len() == 0 {
                assert(q < b.len() && b[q] == 0x7D && e == q + 1);
                assert(obj_end(b, i + 1) == Some(e));
            } else {
                assert(q < b.len() && b[q] == 0x22);
                lemma_obj_members_rel_end(b, i + 1, fields, 0, e);
                assert(obj_end(b, i + 1) == Some(e));
            }
            assert(val_end(b, pos) == obj_end(b, i + 1));
        },
    }
}

/// Every value's text opens with the byte its variant demands.
proof fn lemma_value_first_byte(b: Seq<u8>, pos: int, v: Json, e: int)
    requires
        json_at(b, pos, v, e),
    ensures
        ({
            let i = spec_skip_ws(b, pos);
            &&& 0 <= i < b.len()
            &&& (match v {
                Json::Obj(_) => b[i] == 0x7B,
                Json::Arr(_) => b[i] == 0x5B,
                Json::Str(_) => b[i] == 0x22,
                Json::Null => b[i] == 0x6E,
                Json::Bool(t) => b[i] == (if t {
                    0x74u8
                } else {
                    0x66u8
                }),
                Json::Num(_) => b[i] == 0x2D || (0x30 <= b[i] && b[i] <= 0x39),
            })
        }),
{
    if 0 <= pos && pos <= b.len() {
        lemma_skip_ws_ge(b, pos);
    }
    match v {
        Json::Null => {},
        Json::Bool(_) => {},
        Json::Num(_) => {},
        Json::Str(_) => {},
        Json::Arr(_) => {},
        Json::Obj(_) => {},
    }
}

/// A nonempty element run determines where it ends.
proof fn lemma_arr_items_rel_end(b: Seq<u8>, pos: int, items: Vec<Json>, idx: int, e: int)
    requires
        arr_items_at(b, pos, items, idx, e),
    ensures
        items_end(b, pos) == Some(e),
        pos < e <= b.len(),
    decreases items, items.len() - idx,
{
    let m = choose|m: int|
        end_mark(m) && json_at(b, pos, items[idx], m) && arr_step(b, items, idx, m, e);
    lemma_json_rel_end(b, pos, items[idx], m);
    if 0 <= pos && pos <= b.len() {
        lemma_skip_ws_ge(b, pos);
    }
    lemma_skip_ws_ge(b, m);
    let w = spec_skip_ws(b, m);
    if idx == items.len() - 1 {
    } else {
        lemma_arr_items_rel_end(b, w + 1, items, idx + 1, e);
    }
}

/// A nonempty member run determines where it ends.
proof fn lemma_obj_members_rel_end(
    b: Seq<u8>,
    pos: int,
    fields: Vec<(String, Json)>,
    idx: int,
    e: int,
)
    requires
        obj_members_at(b, pos, fields, idx, e),
    ensures
        members_end(b, pos) == Some(e),
        pos < e <= b.len(),
    decreases fields, fields.len() - idx,
{
    let i = spec_skip_ws(b, pos);
    let ke = choose|ke: int|
        end_mark(ke) && str_body_at(b, i + 1, fields[idx].0@, ke) && obj_key_step(
            b,
            fields,
            idx,
            ke,
            e,
        );
    lemma_sb_rel_end(b, i + 1, fields[idx].0@, ke);
    if 0 <= pos && pos <= b.len() {
        lemma_skip_ws_ge(b, pos);
    }
    lemma_skip_ws_ge(b, ke);
    let w = spec_skip_ws(b, ke);
    let m = choose|m: int|
        end_mark(m) && json_at(b, w + 1, fields[idx].1, m) && obj_step(b, fields, idx, m, e);
    lemma_json_rel_end(b, w + 1, fields[idx].1, m);
    lemma_skip_ws_ge(b, m);
    let w2 = spec_skip_ws(b, m);
    if idx == fields.len() - 1 {
    } else {
        lemma_obj_members_rel_end(b, w2 + 1, fields, idx + 1, e);
    }
}

/// Parses one JSON value starting at `pos`.
fn parse_value(b: &[u8], pos: usize) -> (r: Option<(Json, usize)>)
    requires
        pos <= b@.len(),
        b@.len() <= 0x1000_0000,
    ensures
        (r matches Some(p) ==> pos < p.1 <= b@.len()),
        (r matches Some(p) ==> json_at(b@, pos as int, p.0, p.1 as int)),
        (match r {
            Some(p) => val_end(b@, pos as int) == Some(p.1 as int),
            None => val_end(b@, pos as int) is None,
        }),
    decreases b@.len() - pos, 0int,
{
    let n = b.len();
    let i = skip_ws(b, pos);
    if i >= n {
        return None;
    }
    let c = b[i];
    if c == 0x7B {
        parse_object(b, i + 1)
    } else if c == 0x5B {
        parse_array(b, i + 1)
    } else if c == 0x22 {
        match parse_string_body(b, i + 1) {
            Some((s, j)) => Some((Json::Str(s), j)),
            None => None,
        }
    } else if c == 0x74 {
        // true
        if expect_bytes(b, i, 0x72, 0x75, 0x65) {
            Some((Json::Bool(true), i + 4))
        } else {
            None
        }
    } else if c == 0x66 {
        // false
        if i + 4 < n && b[i + 1] == 0x61 && b[i + 2] == 0x6C && b[i + 3] == 0x73 && b[i + 4]
            == 0x65 {
            Some((Json::Bool(false), i + 5))
        } else {
            None
        }
    } else if c == 0x6E {
        // null
        if expect_bytes(b, i, 0x75, 0x6C, 0x6C) {
            Some((Json::Null, i + 4))
        } else {
            None
        }
    } else {
        match parse_number_token(b, i) {
            Some((s, j)) => Some((Json::Num(s), j)),
            None => None,
        }
    }
}

#[verifier::loop_isolation(false)]
fn parse_array(b: &[u8], pos: usize) -> (r: Option<(Json, usize)>)
    requires
        pos <= b@.len(),
        b@.len() <= 0x1000_0000,
    ensures
        (r matches Some(p) ==> pos < p.1 <= b@.len()),
        (match r {
            Some(p) => (match p.0 {
                Json::Arr(items) => arr_body_at(b@, pos as int, items, p.1 as int),
                _ => false,
            }),
            None => true,
        }),
        (match r {
            Some(p) => arr_end(b@, pos as int) == Some(p.1 as int),
            None => arr_end(b@, pos as int) is None,
        }),
    decreases b@.len() - pos, 1int,
{
    let n = b.len();
    let mut items: Vec<Json> = Vec::new();
    let q = skip_ws(b, pos);
    if q < n && b[q] == 0x5D {
        return Some((Json::Arr(items), q + 1));
    }
    let mut cur = pos;
    let ghost mut gstarts: Seq<int> = Seq::empty();
    let ghost mut gends: Seq<int> = Seq::empty();
    loop
        invariant
            pos <= cur <= n,
            gstarts.len() == items@.len(),
            gends.len() == items@.len(),
            items@.len() > 0 ==> gstarts[0] == pos as int,
            forall|k: int|
                0 <= k < items@.len() ==> json_at(b@, #[trigger] gstarts[k], items@[k], gends[k]),
            forall|k: int|
                0 <= k < items@.len() - 1 ==> {
                    let w = spec_skip_ws(b@, #[trigger] gends[k]);
                    w < n && b@[w] == 0x2C && gstarts[k + 1] == w + 1
                },
            items@.len() == 0 ==> cur == pos,
            items@.len() > 0 ==> {
                let w = spec_skip_ws(b@, gends[items@.len() - 1]);
                w < n && b@[w] == 0x2C && cur as int == w + 1
            },
            arr_end(b@, pos as int) == items_end(b@, cur as int),
        decreases n - cur,
    {
        let stepped = match parse_value(b, cur) {
            Some((v, j)) => {
                proof {
                    if items@.len() == 0 {
                        gstarts = gstarts.push(pos as int);
                    } else {
                        gstarts = gstarts.push(cur as int);
                    }
                    gends = gends.push(j as int);
                }
                items.push(v);
                j
            },
            None => {
                return None;
            },
        };
        let after = skip_ws(b, stepped);
        if after >= n {
            return None;
        }
        if b[after] == 0x5D {
            proof {
                assert(spec_skip_ws(b@, gends[items@.len() - 1]) == after as int);
                lemma_arr_items_intro(b@, items, gstarts, gends, 0, (after + 1) as int);
                assert(arr_body_at(b@, pos as int, items, (after + 1) as int));
            }
            return Some((Json::Arr(items), after + 1));
        }
        if b[after] != 0x2C {
            return None;
        }
        cur = after + 1;
    }
}

#[verifier::loop_isolation(false)]
fn parse_object(b: &[u8], pos: usize) -> (r: Option<(Json, usize)>)
    requires
        pos <= b@.len(),
        b@.len() <= 0x1000_0000,
    ensures
        (r matches Some(p) ==> pos < p.1 <= b@.len()),
        (match r {
            Some(p) => (match p.0 {
                Json::Obj(fields) => obj_body_at(b@, pos as int, fields, p.1 as int),
                _ => false,
            }),
            None => true,
        }),
        (match r {
            Some(p) => obj_end(b@, pos as int) == Some(p.1 as int),
            None => obj_end(b@, pos as int) is None,
        }),
    decreases b@.len() - pos, 1int,
{
    let n = b.len();
    let mut fields: Vec<(String, Json)> = Vec::new();
    let q = skip_ws(b, pos);
    if q < n && b[q] == 0x7D {
        return Some((Json::Obj(fields), q + 1));
    }
    let mut cur = pos;
    let ghost mut gstarts: Seq<int> = Seq::empty();
    let ghost mut gkends: Seq<int> = Seq::empty();
    let ghost mut gends: Seq<int> = Seq::empty();
    loop
        invariant
            pos <= cur <= n,
            gstarts.len() == fields@.len(),
            gkends.len() == fields@.len(),
            gends.len() == fields@.len(),
            fields@.len() > 0 ==> gstarts[0] == pos as int,
            forall|k: int|
                0 <= k < fields@.len() ==> {
                    let i = spec_skip_ws(b@, #[trigger] gstarts[k]);
                    &&& i < n && b@[i] == 0x22
                    &&& str_body_at(b@, i + 1, fields@[k].0@, gkends[k])
                    &&& {
                        let w = spec_skip_ws(b@, gkends[k]);
                        w < n && b@[w] == 0x3A && json_at(b@, w + 1, fields@[k].1, gends[k])
                    }
                },
            forall|k: int|
                0 <= k < fields@.len() - 1 ==> {
                    let w = spec_skip_ws(b@, #[trigger] gends[k]);
                    w < n && b@[w] == 0x2C && gstarts[k + 1] == w + 1
                },
            fields@.len() == 0 ==> cur == pos,
            fields@.len() > 0 ==> {
                let w = spec_skip_ws(b@, gends[fields@.len() - 1]);
                w < n && b@[w] == 0x2C && cur as int == w + 1
            },
            obj_end(b@, pos as int) == members_end(b@, cur as int),
        decreases n - cur,
    {
        let at_key = skip_ws(b, cur);
        if at_key >= n || b[at_key] != 0x22 {
            return None;
        }
        let (key, after_key) = match parse_string_body(b, at_key + 1) {
            Some(p) => p,
            None => {
                return None;
            },
        };
        let at_colon = skip_ws(b, after_key);
        if at_colon >= n || b[at_colon] != 0x3A {
            return None;
        }
        let after_val = match parse_value(b, at_colon + 1) {
            Some((v, j)) => {
                proof {
                    let start: int = if fields@.len() == 0 {
                        pos as int
                    } else {
                        cur as int
                    };
                    assert(spec_skip_ws(b@, start) == at_key as int);
                    gstarts = gstarts.push(start);
                    gkends = gkends.push(after_key as int);
                    gends = gends.push(j as int);
                }
                fields.push((key, v));
                j
            },
            None => {
                return None;
            },
        };
        let after = skip_ws(b, after_val);
        if after >= n {
            return None;
        }
        if b[after] == 0x7D {
            proof {
                assert(spec_skip_ws(b@, gends[fields@.len() - 1]) == after as int);
                lemma_obj_members_intro(b@, fields, gstarts, gkends, gends, 0, (after + 1) as int);
                assert(obj_body_at(b@, pos as int, fields, (after + 1) as int));
            }
            return Some((Json::Obj(fields), after + 1));
        }
        if b[after] != 0x2C {
            return None;
        }
        cur = after + 1;
    }
}

/// Parses one complete JSON document: one value, with nothing but
/// whitespace around it.
pub fn parse_json(b: &[u8]) -> (r: Option<Json>)
    requires
        b@.len() <= 0x1000_0000,
    ensures
        b@.len() == 0 ==> r is None,
        (r matches Some(v) ==> json_of_bytes(b@, v)),
        (r is None ==> forall|v: Json| !json_of_bytes(b@, v)),
{
    match parse_value(b, 0) {
        Some((v, j)) => {
            let end = skip_ws(b, j);
            if end == b.len() {
                proof {
                    assert(json_at(b@, 0, v, j as int) && spec_skip_ws(b@, j as int) == b@.len());
                }
                Some(v)
            } else {
                proof {
                    assert forall|v2: Json| !json_of_bytes(b@, v2) by {
                        if json_of_bytes(b@, v2) {
                            let hend = choose|hend: int|
                                json_at(b@, 0, v2, hend) && spec_skip_ws(b@, hend) == b@.len();
                            lemma_json_rel_end(b@, 0, v2, hend);
                            assert(false);
                        }
                    }
                }
                None
            }
        },
        None => {
            proof {
                assert forall|v2: Json| !json_of_bytes(b@, v2) by {
                    if json_of_bytes(b@, v2) {
                        let hend = choose|hend: int|
                            json_at(b@, 0, v2, hend) && spec_skip_ws(b@, hend) == b@.len();
                        lemma_json_rel_end(b@, 0, v2, hend);
                        assert(false);
                    }
                }
            }
            None
        },
    }
}

} // verus!

// ---------------------------------------------------------------------
// Typed document extraction.
use crate::types::{Config, Dns, Error, Interface, Ip, Ipam, NetworkConfig, PluginConfig, Route, Success};
use crate::addr::{dec_text_val, is_digit};

verus! {

/// The value under the first occurrence of a key.
pub open spec fn spec_get(fields: Seq<(String, Json)>, key: Seq<char>) -> Option<Json>
    decreases fields.len(),
{
    if fields.len() == 0 {
        None
    } else if fields[0].0@ == key {
        Some(fields[0].1)
    } else {
        spec_get(fields.drop_first(), key)
    }
}

proof fn lemma_spec_get_at(s: Seq<(String, Json)>, idx: int, key: Seq<char>)
    requires
        0 <= idx < s.len(),
        s[idx].0@ == key,
        forall|m: int| 0 <= m < idx ==> s[m].0@ != key,
    ensures
        spec_get(s, key) == Some(s[idx].1),
    decreases idx,
{
    if idx > 0 {
        assert forall|m: int| 0 <= m < idx - 1 implies s.drop_first()[m].0@ != key by {
            assert(s.drop_first()[m] == s[m + 1]);
        }
        assert(s.drop_first()[idx - 1] == s[idx]);
        lemma_spec_get_at(s.drop_first(), idx - 1, key);
    }
}

proof fn lemma_spec_get_none(s: Seq<(String, Json)>, key: Seq<char>)
    requires
        forall|m: int| 0 <= m < s.len() ==> s[m].0@ != key,
    ensures
        spec_get(s, key) is None,
    decreases s.len(),
{
    if s.len() > 0 {
        assert forall|m: int| 0 <= m < s.drop_first().len() implies s.drop_first()[m].0@ != key by {
            assert(s.drop_first()[m] == s[m + 1]);
        }
        lemma_spec_get_none(s.drop_first(), key);
    }
}

proof fn lemma_spec_get_remove(s: Seq<(String, Json)>, idx: int, k2: Seq<char>)
    requires
        0 <= idx < s.len(),
        s[idx].0@ != k2,
    ensures
        spec_get(s.remove(idx), k2) == spec_get(s, k2),
    decreases s.len(),
{
    if idx == 0 {
        assert(s.remove(0) =~= s.drop_first());
    } else {
        assert(s.remove(idx).drop_first() =~= s.drop_first().remove(idx - 1));
        assert(s.remove(idx)[0] == s[0]);
        if s[0].0@ != k2 {
            lemma_spec_get_remove(s.drop_first(), idx - 1, k2);
        }
    }
}

/// Removes the first pair under this key, if any, and hands its value
/// out; every other key still resolves to the same value afterwards.
fn take_field(fields: &mut Vec<(String, Json)>, key: &str) -> (r: Option<Json>)
    ensures
        (match r {
            Some(v) => spec_get(old(fields)@, key@) == Some(v),
            None => spec_get(old(fields)@, key@) is None && final(fields)@ == old(fields)@,
        }),
        forall|k2: Seq<char>|
            k2 != key@ ==> #[trigger] spec_get(final(fields)@, k2) == spec_get(old(fields)@, k2),
{
    let k = String::from_str(key);
    let mut i: usize = 0;
    while i < fields.len()
        invariant
            i <= fields@.len(),
            k@ == key@,
            fields@ == old(fields)@,
            forall|m: int| 0 <= m < i ==> fields@[m].0@ != key@,
        decreases fields@.len() - i,
    {
        if fields[i].0 == k {
            proof {
                lemma_spec_get_at(fields@, i as int, key@);
            }
            let pair = fields.remove(i);
            proof {
                assert forall|k2: Seq<char>| k2 != key@ implies #[trigger] spec_get(
                    fields@,
                    k2,
                ) == spec_get(old(fields)@, k2) by {
                    lemma_spec_get_remove(old(fields)@, i as int, k2);
                }
            }
            return Some(pair.1);
        }
        i = i + 1;
    }
    proof {
        lemma_spec_get_none(fields@, key@);
    }
    None
}

/// A required text field.
pub open spec fn str_field(fields: Seq<(String, Json)>, key: Seq<char>) -> Option<Seq<char>> {
    match spec_get(fields, key) {
        Some(Json::Str(s)) => Some(s@),
        _ => None,
    }
}

/// An optional text field: absent and null both count as missing.
pub open spec fn opt_str_ok(fields: Seq<(String, Json)>, key: Seq<char>) -> bool {
    match spec_get(fields, key) {
        None => true,
        Some(Json::Str(_)) => true,
        Some(Json::Null) => true,
        _ => false,
    }
}

pub open spec fn opt_str_rel(fields: Seq<(String, Json)>, key: Seq<char>, v: Option<String>) -> bool {
    match spec_get(fields, key) {
        Some(Json::Str(s)) => (v matches Some(t) && t@ == s@),
        None => v is None,
        Some(Json::Null) => v is None,
        _ => false,
    }
}

pub open spec fn opt_bool_rel(fields: Seq<(String, Json)>, key: Seq<char>, v: Option<bool>) -> bool {
    match spec_get(fields, key) {
        Some(Json::Bool(b)) => v == Some(b),
        None => v is None,
        Some(Json::Null) => v is None,
        _ => false,
    }
}

/// Digits only, and a value a 64-bit number can hold.
pub open spec fn num_u64_ok(s: Seq<char>) -> bool {
    &&& s.len() >= 1
    &&& forall|i: int| 0 <= i < s.len() ==> is_digit(#[trigger] s[i])
    &&& dec_text_val(s) <= u64::MAX
}

proof fn lemma_dec_prefix_le(s: Seq<char>, i: int)
    requires
        forall|m: int| 0 <= m < s.len() ==> is_digit(#[trigger] s[m]),
        0 <= i <= s.len(),
    ensures
        dec_text_val(s.subrange(0, i)) <= dec_text_val(s),
        dec_text_val(s) >= 0,
    decreases s.len() - i,
{
    if i == s.len() {
        assert(s.subrange(0, i) =~= s);
        crate::addr::lemma_dec_text_val_bounds(s);
    } else {
        lemma_dec_prefix_le(s, i + 1);
        let a = s.subrange(0, i);
        let b = s.subrange(0, i + 1);
        assert(b.drop_last() =~= a);
        assert(b.last() == s[i]);
        crate::addr::lemma_dec_text_val_bounds(a);
        assert(dec_text_val(b) == dec_text_val(a) * 10 + crate::addr::digit_val(s[i]));
        assert(dec_text_val(a) * 10 >= dec_text_val(a)) by (nonlinear_arith)
            requires dec_text_val(a) >= 0;
    }
}

/// Parses a run of decimal digits as a 64-bit number; fails on any other
/// character and on overflow.
fn parse_u64(s: &str) -> (r: Option<u64>)
    ensures
        r is Some <==> num_u64_ok(s@),
        (r matches Some(v) ==> v as int == dec_text_val(s@)),
{
    let n = s.unicode_len();
    if n == 0 {
        return None;
    }
    let mut val: u64 = 0;
    let mut i: usize = 0;
    while i < n
        invariant
            i <= n,
            n == s@.len(),
            n >= 1,
            forall|m: int| 0 <= m < i ==> is_digit(#[trigger] s@[m]),
            val as int == dec_text_val(s@.subrange(0, i as int)),
        decreases n - i,
    {
        let c = s.get_char(i);
        let cv = c as u32;
        if cv < 48 || cv > 57 {
            return None;
        }
        let d = (cv - 48) as u64;
        proof {
            assert(s@.subrange(0, i + 1).drop_last() =~= s@.subrange(0, i as int));
            assert(s@.subrange(0, i + 1).last() == s@[i as int]);
        }
        if val > (0xFFFF_FFFF_FFFF_FFFFu64 - d) / 10 {
            proof {
                assert(forall|m: int| 0 <= m < i + 1 ==> is_digit(#[trigger] s@[m]));
                assert(val * 10 + d > 0xFFFF_FFFF_FFFF_FFFF) by (nonlinear_arith)
                    requires
                        val > (0xFFFF_FFFF_FFFF_FFFFu64 - d) / 10,
                        d <= 9,
                ;
                if forall|m: int| 0 <= m < s@.len() ==> is_digit(#[trigger] s@[m]) {
                    lemma_dec_prefix_le(s@, i + 1);
                }
            }
            return None;
        }
        proof {
            assert(val * 10 + d <= 0xFFFF_FFFF_FFFF_FFFF) by (nonlinear_arith)
                requires
                    val <= (0xFFFF_FFFF_FFFF_FFFFu64 - d) / 10,
                    d <= 9,
            ;
        }
        val = val * 10 + d;
        i = i + 1;
    }
    proof {
        assert(s@.subrange(0, n as int) =~= s@);
    }
    Some(val)
}

} // verus!

verus! {

pub open spec fn str_list_rel(a: Seq<Json>, v: Seq<String>) -> bool {
    &&& v.len() == a.len()
    &&& forall|i: int|
        0 <= i < a.len() ==> (#[trigger] a[i] matches Json::Str(s) && v[i]@ == s@)
}

/// An optional list-of-text field: absent and null both count as missing.
pub open spec fn str_arr_ok(f: Seq<(String, Json)>, key: Seq<char>) -> bool {
    match spec_get(f, key) {
        None => true,
        Some(Json::Null) => true,
        Some(Json::Arr(a)) => forall|i: int| 0 <= i < a@.len() ==> #[trigger] a@[i] is Str,
        _ => false,
    }
}

pub open spec fn str_arr_rel(f: Seq<(String, Json)>, key: Seq<char>, v: Option<Vec<String>>) -> bool {
    match spec_get(f, key) {
        None => v is None,
        Some(Json::Null) => v is None,
        Some(Json::Arr(a)) => (v matches Some(w) && str_list_rel(a@, w@)),
        _ => false,
    }
}

#[verifier::loop_isolation(false)]
fn strings_of_arr(items: Vec<Json>) -> (r: Option<Vec<String>>)
    ensures
        r is Some <==> (forall|i: int| 0 <= i < items@.len() ==> #[trigger] items@[i] is Str),
        (r matches Some(v) ==> str_list_rel(items@, v@)),
{
    let ghost orig = items@;
    let mut rest = items;
    let mut out: Vec<String> = Vec::new();
    while rest.len() > 0
        invariant
            out@.len() + rest@.len() == orig.len(),
            rest@ =~= orig.skip(out@.len() as int),
            forall|i: int|
                0 <= i < out@.len() ==> (#[trigger] orig[i] matches Json::Str(s) && out@[i]@
                    == s@),
        decreases rest@.len(),
    {
        let ghost k = out@.len() as int;
        proof {
            assert(orig.skip(k)[0] == orig[k]);
        }
        let it = rest.remove(0);
        proof {
            assert(rest@ =~= orig.skip(k + 1));
        }
        match it {
            Json::Str(s) => out.push(s),
            _ => {
                proof {
                    assert(it == orig[k]);
                    assert(!(forall|i: int|
                        0 <= i < orig.len() ==> #[trigger] orig[i] is Str)) by {
                        assert(!(orig[k] is Str));
                    }
                }
                return None;
            },
        }
    }
    Some(out)
}

pub open spec fn dns_fields_ok(f: Seq<(String, Json)>) -> bool {
    &&& str_arr_ok(f, "nameservers"@)
    &&& opt_str_ok(f, "domain"@)
    &&& str_arr_ok(f, "search"@)
    &&& str_arr_ok(f, "options"@)
}

pub open spec fn dns_fields_rel(f: Seq<(String, Json)>, d: Dns) -> bool {
    &&& str_arr_rel(f, "nameservers"@, d.nameservers)
    &&& opt_str_rel(f, "domain"@, d.domain)
    &&& str_arr_rel(f, "search"@, d.search)
    &&& str_arr_rel(f, "options"@, d.options)
}

fn dns_of_fields(fields: Vec<(String, Json)>) -> (r: Option<Dns>)
    ensures
        r is Some <==> dns_fields_ok(fields@),
        (r matches Some(d) ==> dns_fields_rel(fields@, d)),
{
    proof {
        reveal_strlit("nameservers");
        reveal_strlit("domain");
        reveal_strlit("search");
        reveal_strlit("options");
        assert("domain"@.len() == 6);
        assert("nameservers"@.len() == 11);
        assert("search"@.len() == 6 && "search"@[0] == 's');
        assert("domain"@[0] == 'd');
        assert("options"@.len() == 7);
        assert("domain"@ != "nameservers"@);
        assert("search"@ != "nameservers"@ && "search"@ != "domain"@);
        assert("options"@ != "nameservers"@ && "options"@ != "domain"@ && "options"@
            != "search"@);
    }
    let mut f = fields;
    let nameservers = match take_field(&mut f, "nameservers") {
        None => None,
        Some(Json::Null) => None,
        Some(Json::Arr(items)) => match strings_of_arr(items) {
            Some(v) => Some(v),
            None => {
                return None;
            },
        },
        Some(_) => {
            return None;
        },
    };
    let domain = match take_field(&mut f, "domain") {
        None => None,
        Some(Json::Null) => None,
        Some(Json::Str(s)) => Some(s),
        Some(_) => {
            return None;
        },
    };
    let search = match take_field(&mut f, "search") {
        None => None,
        Some(Json::Null) => None,
        Some(Json::Arr(items)) => match strings_of_arr(items) {
            Some(v) => Some(v),
            None => {
                return None;
            },
        },
        Some(_) => {
            return None;
        },
    };
    let options = match take_field(&mut f, "options") {
        None => None,
        Some(Json::Null) => None,
        Some(Json::Arr(items)) => match strings_of_arr(items) {
            Some(v) => Some(v),
            None => {
                return None;
            },
        },
        Some(_) => {
            return None;
        },
    };
    Some(Dns { nameservers, domain, search, options })
}

pub open spec fn ip_fields_ok(f: Seq<(String, Json)>) -> bool {
    &&& str_field(f, "address"@) is Some
    &&& str_field(f, "gateway"@) is Some
    &&& (match spec_get(f, "interface"@) {
        None => true,
        Some(Json::Null) => true,
        Some(Json::Num(s)) => num_u64_ok(s@),
        _ => false,
    })
}

pub open spec fn ip_shape_ok(j: Json) -> bool {
    match j {
        Json::Obj(f) => ip_fields_ok(f@),
        _ => false,
    }
}

pub open spec fn ip_rel(j: Json, ip: Ip) -> bool {
    match j {
        Json::Obj(f) => {
            &&& Some(ip.address@) == str_field(f@, "address"@)
            &&& Some(ip.gateway@) == str_field(f@, "gateway"@)
            &&& (match spec_get(f@, "interface"@) {
                None => ip.interface is None,
                Some(Json::Null) => ip.interface is None,
                Some(Json::Num(s)) => (ip.interface matches Some(v) && v as int == dec_text_val(
                    s@,
                )),
                _ => false,
            })
        },
        _ => false,
    }
}

fn ip_of_json(j: Json) -> (r: Option<Ip>)
    ensures
        r is Some <==> ip_shape_ok(j),
        (r matches Some(ip) ==> ip_rel(j, ip)),
{
    proof {
        reveal_strlit("address");
        reveal_strlit("gateway");
        reveal_strlit("interface");
        assert("address"@.len() == 7 && "address"@[0] == 'a');
        assert("gateway"@.len() == 7 && "gateway"@[0] == 'g');
        assert("interface"@.len() == 9 && "interface"@[0] == 'i');
        assert("gateway"@ != "address"@);
        assert("interface"@ != "address"@);
        assert("interface"@ != "gateway"@);
    }
    let mut f = match j {
        Json::Obj(f) => f,
        _ => {
            return None;
        },
    };
    let address = match take_field(&mut f, "address") {
        Some(Json::Str(s)) => s,
        _ => {
            return None;
        },
    };
    let gateway = match take_field(&mut f, "gateway") {
        Some(Json::Str(s)) => s,
        _ => {
            return None;
        },
    };
    let interface = match take_field(&mut f, "interface") {
        None => None,
        Some(Json::Null) => None,
        Some(Json::Num(s)) => match parse_u64(s.as_str()) {
            Some(v) => Some(v),
            None => {
                return None;
            },
        },
        Some(_) => {
            return None;
        },
    };
    Some(Ip { address, gateway, interface })
}

pub open spec fn route_fields_ok(f: Seq<(String, Json)>) -> bool {
    &&& str_field(f, "dst"@) is Some
    &&& opt_str_ok(f, "gw"@)
}

pub open spec fn route_shape_ok(j: Json) -> bool {
    match j {
        Json::Obj(f) => route_fields_ok(f@),
        _ => false,
    }
}

pub open spec fn route_rel(j: Json, rt: Route) -> bool {
    match j {
        Json::Obj(f) => {
            &&& Some(rt.dst@) == str_field(f@, "dst"@)
            &&& opt_str_rel(f@, "gw"@, rt.gw)
        },
        _ => false,
    }
}

fn route_of_json(j: Json) -> (r: Option<Route>)
    ensures
        r is Some <==> route_shape_ok(j),
        (r matches Some(rt) ==> route_rel(j, rt)),
{
    proof {
        reveal_strlit("dst");
        reveal_strlit("gw");
        assert("dst"@.len() == 3 && "dst"@[0] == 'd');
        assert("gw"@.len() == 2 && "gw"@[0] == 'g');
        assert("gw"@ != "dst"@);
    }
    let mut f = match j {
        Json::Obj(f) => f,
        _ => {
            return None;
        },
    };
    let dst = match take_field(&mut f, "dst") {
        Some(Json::Str(s)) => s,
        _ => {
            return None;
        },
    };
    let gw = match take_field(&mut f, "gw") {
        None => None,
        Some(Json::Null) => None,
        Some(Json::Str(s)) => Some(s),
        Some(_) => {
            return None;
        },
    };
    Some(Route { dst, gw })
}

pub open spec fn iface_fields_ok(f: Seq<(String, Json)>) -> bool {
    &&& str_field(f, "name"@) is Some
    &&& opt_str_ok(f, "mac"@)
    &&& opt_str_ok(f, "sandbox"@)
}

pub open spec fn iface_shape_ok(j: Json) -> bool {
    match j {
        Json::Obj(f) => iface_fields_ok(f@),
        _ => false,
    }
}

pub open spec fn iface_rel(j: Json, e: Interface) -> bool {
    match j {
        Json::Obj(f) => {
            &&& Some(e.name@) == str_field(f@, "name"@)
            &&& opt_str_rel(f@, "mac"@, e.mac)
            &&& opt_str_rel(f@, "sandbox"@, e.sandbox)
        },
        _ => false,
    }
}

fn iface_of_json(j: Json) -> (r: Option<Interface>)
    ensures
        r is Some <==> iface_shape_ok(j),
        (r matches Some(e) ==> iface_rel(j, e)),
{
    proof {
        reveal_strlit("name");
        reveal_strlit("mac");
        reveal_strlit("sandbox");
        assert("name"@.len() == 4 && "name"@[0] == 'n');
        assert("mac"@.len() == 3 && "mac"@[0] == 'm');
        assert("sandbox"@.len() == 7 && "sandbox"@[0] == 's');
        assert("mac"@ != "name"@);
        assert("sandbox"@ != "name"@);
        assert("sandbox"@ != "mac"@);
    }
    let mut f = match j {
        Json::Obj(f) => f,
        _ => {
            return None;
        },
    };
    let name = match take_field(&mut f, "name") {
        Some(Json::Str(s)) => s,
        _ => {
            return None;
        },
    };
    let mac = match take_field(&mut f, "mac") {
        None => None,
        Some(Json::Null) => None,
        Some(Json::Str(s)) => Some(s),
        Some(_) => {
            return None;
        },
    };
    let sandbox = match take_field(&mut f, "sandbox") {
        None => None,
        Some(Json::Null) => None,
        Some(Json::Str(s)) => Some(s),
        Some(_) => {
            return None;
        },
    };
    Some(Interface { name, mac, sandbox })
}

pub open spec fn ips_list_rel(a: Seq<Json>, v: Seq<Ip>) -> bool {
    &&& v.len() == a.len()
    &&& forall|i: int| 0 <= i < a.len() ==> ip_rel(#[trigger] a[i], v[i])
}

#[verifier::loop_isolation(false)]
fn ips_of_arr(items: Vec<Json>) -> (r: Option<Vec<Ip>>)
    ensures
        r is Some <==> (forall|i: int| 0 <= i < items@.len() ==> ip_shape_ok(#[trigger] items@[i])),
        (r matches Some(v) ==> ips_list_rel(items@, v@)),
{
    let ghost orig = items@;
    let mut rest = items;
    let mut out: Vec<Ip> = Vec::new();
    while rest.len() > 0
        invariant
            out@.len() + rest@.len() == orig.len(),
            rest@ =~= orig.skip(out@.len() as int),
            forall|i: int| 0 <= i < out@.len() ==> ip_shape_ok(#[trigger] orig[i]),
            forall|i: int| 0 <= i < out@.len() ==> ip_rel(#[trigger] orig[i], out@[i]),
        decreases rest@.len(),
    {
        let ghost k = out@.len() as int;
        proof {
            assert(orig.skip(k)[0] == orig[k]);
        }
        let it = rest.remove(0);
        proof {
            assert(rest@ =~= orig.skip(k + 1));
        }
        match ip_of_json(it) {
            Some(ip) => out.push(ip),
            None => {
                return None;
            },
        }
    }
    Some(out)
}

pub open spec fn routes_list_rel(a: Seq<Json>, v: Seq<Route>) -> bool {
    &&& v.len() == a.len()
    &&& forall|i: int| 0 <= i < a.len() ==> route_rel(#[trigger] a[i], v[i])
}

#[verifier::loop_isolation(false)]
fn routes_of_arr(items: Vec<Json>) -> (r: Option<Vec<Route>>)
    ensures
        r is Some <==> (forall|i: int|
            0 <= i < items@.len() ==> route_shape_ok(#[trigger] items@[i])),
        (r matches Some(v) ==> routes_list_rel(items@, v@)),
{
    let ghost orig = items@;
    let mut rest = items;
    let mut out: Vec<Route> = Vec::new();
    while rest.len() > 0
        invariant
            out@.len() + rest@.len() == orig.len(),
            rest@ =~= orig.skip(out@.len() as int),
            forall|i: int| 0 <= i < out@.len() ==> route_shape_ok(#[trigger] orig[i]),
            forall|i: int| 0 <= i < out@.len() ==> route_rel(#[trigger] orig[i], out@[i]),
        decreases rest@.len(),
    {
        let ghost k = out@.len() as int;
        proof {
            assert(orig.skip(k)[0] == orig[k]);
        }
        let it = rest.remove(0);
        proof {
            assert(rest@ =~= orig.skip(k + 1));
        }
        match route_of_json(it) {
            Some(rt) => out.push(rt),
            None => {
                return None;
            },
        }
    }
    Some(out)
}

pub open spec fn ifaces_list_rel(a: Seq<Json>, v: Seq<Interface>) -> bool {
    &&& v.len() == a.len()
    &&& forall|i: int| 0 <= i < a.len() ==> iface_rel(#[trigger] a[i], v[i])
}

#[verifier::loop_isolation(false)]
fn ifaces_of_arr(items: Vec<Json>) -> (r: Option<Vec<Interface>>)
    ensures
        r is Some <==> (forall|i: int|
            0 <= i < items@.len() ==> iface_shape_ok(#[trigger] items@[i])),
        (r matches Some(v) ==> ifaces_list_rel(items@, v@)),
{
    let ghost orig = items@;
    let mut rest = items;
    let mut out: Vec<Interface> = Vec::new();
    while rest.len() > 0
        invariant
            out@.len() + rest@.len() == orig.len(),
            rest@ =~= orig.skip(out@.len() as int),
            forall|i: int| 0 <= i < out@.len() ==> iface_shape_ok(#[trigger] orig[i]),
            forall|i: int| 0 <= i < out@.len() ==> iface_rel(#[trigger] orig[i], out@[i]),
        decreases rest@.len(),
    {
        let ghost k = out@.len() as int;
        proof {
            assert(orig.skip(k)[0] == orig[k]);
        }
        let it = rest.remove(0);
        proof {
            assert(rest@ =~= orig.skip(k + 1));
        }
        match iface_of_json(it) {
            Some(e) => out.push(e),
            None => {
                return None;
            },
        }
    }
    Some(out)
}

pub open spec fn success_fields_ok(f: Seq<(String, Json)>) -> bool {
    &&& str_field(f, "cniVersion"@) is Some
    &&& (match spec_get(f, "ips"@) {
        Some(Json::Arr(a)) => forall|i: int| 0 <= i < a@.len() ==> ip_shape_ok(#[trigger] a@[i]),
        _ => false,
    })
    &&& (match spec_get(f, "routes"@) {
        Some(Json::Arr(a)) => forall|i: int|
            0 <= i < a@.len() ==> route_shape_ok(#[trigger] a@[i]),
        _ => false,
    })
    &&& (match spec_get(f, "dns"@) {
        Some(Json::Obj(g)) => dns_fields_ok(g@),
        _ => false,
    })
    &&& (match spec_get(f, "interfaces"@) {
        None => true,
        Some(Json::Null) => true,
        Some(Json::Arr(a)) => forall|i: int|
            0 <= i < a@.len() ==> iface_shape_ok(#[trigger] a@[i]),
        _ => false,
    })
}

pub open spec fn success_shape_ok(j: Json) -> bool {
    match j {
        Json::Obj(f) => success_fields_ok(f@),
        _ => false,
    }
}

pub open spec fn success_rel(j: Json, s: Success) -> bool {
    match j {
        Json::Obj(f) => {
            &&& Some(s.cni_version@) == str_field(f@, "cniVersion"@)
            &&& (match spec_get(f@, "ips"@) {
                Some(Json::Arr(a)) => ips_list_rel(a@, s.ips@),
                _ => false,
            })
            &&& (match spec_get(f@, "routes"@) {
                Some(Json::Arr(a)) => routes_list_rel(a@, s.routes@),
                _ => false,
            })
            &&& (match spec_get(f@, "dns"@) {
                Some(Json::Obj(g)) => dns_fields_rel(g@, s.dns),
                _ => false,
            })
            &&& (match spec_get(f@, "interfaces"@) {
                None => s.interfaces is None,
                Some(Json::Null) => s.interfaces is None,
                Some(Json::Arr(a)) => (s.interfaces matches Some(v) && ifaces_list_rel(a@, v@)),
                _ => false,
            })
        },
        _ => false,
    }
}

/// Extracts a result document.
pub fn success_of_json(j: Json) -> (r: Option<Success>)
    ensures
        r is Some <==> success_shape_ok(j),
        (r matches Some(s) ==> success_rel(j, s)),
{
    proof {
        reveal_strlit("cniVersion");
        reveal_strlit("ips");
        reveal_strlit("routes");
        reveal_strlit("dns");
        reveal_strlit("interfaces");
        assert("cniVersion"@.len() == 10 && "cniVersion"@[0] == 'c');
        assert("ips"@.len() == 3 && "ips"@[0] == 'i');
        assert("routes"@.len() == 6 && "routes"@[0] == 'r');
        assert("dns"@.len() == 3 && "dns"@[0] == 'd');
        assert("interfaces"@.len() == 10 && "interfaces"@[0] == 'i');
        assert("ips"@ != "cniVersion"@);
        assert("routes"@ != "cniVersion"@);
        assert("routes"@ != "ips"@);
        assert("dns"@ != "cniVersion"@);
        assert("dns"@ != "ips"@);
        assert("dns"@ != "routes"@);
        assert("interfaces"@ != "cniVersion"@);
        assert("interfaces"@ != "ips"@);
        assert("interfaces"@ != "routes"@);
        assert("interfaces"@ != "dns"@);
    }
    let mut f = match j {
        Json::Obj(f) => f,
        _ => {
            return None;
        },
    };
    let cni_version = match take_field(&mut f, "cniVersion") {
        Some(Json::Str(s)) => s,
        _ => {
            return None;
        },
    };
    let ips = match take_field(&mut f, "ips") {
        Some(Json::Arr(items)) => match ips_of_arr(items) {
            Some(v) => v,
            None => {
                return None;
            },
        },
        _ => {
            return None;
        },
    };
    let routes = match take_field(&mut f, "routes") {
        Some(Json::Arr(items)) => match routes_of_arr(items) {
            Some(v) => v,
            None => {
                return None;
            },
        },
        _ => {
            return None;
        },
    };
    let dns = match take_field(&mut f, "dns") {
        Some(Json::Obj(g)) => match dns_of_fields(g) {
            Some(d) => d,
            None => {
                return None;
            },
        },
        _ => {
            return None;
        },
    };
    let interfaces = match take_field(&mut f, "interfaces") {
        None => None,
        Some(Json::Null) => None,
        Some(Json::Arr(items)) => match ifaces_of_arr(items) {
            Some(v) => Some(v),
            None => {
                return None;
            },
        },
        Some(_) => {
            return None;
        },
    };
    Some(Success { cni_version, interfaces, ips, routes, dns })
}

pub open spec fn error_shape_ok(j: Json) -> bool {
    match j {
        Json::Obj(f) => {
            &&& (match spec_get(f@, "code"@) {
                Some(Json::Num(s)) => num_u64_ok(s@),
                _ => false,
            })
            &&& str_field(f@, "msg"@) is Some
            &&& opt_str_ok(f@, "details"@)
        },
        _ => false,
    }
}

pub open spec fn error_rel(j: Json, e: Error) -> bool {
    match j {
        Json::Obj(f) => {
            &&& (match spec_get(f@, "code"@) {
                Some(Json::Num(s)) => e.code as int == dec_text_val(s@),
                _ => false,
            })
            &&& Some(e.msg@) == str_field(f@, "msg"@)
            &&& opt_str_rel(f@, "details"@, e.details)
        },
        _ => false,
    }
}

/// Extracts an error document.
pub fn error_of_json(j: Json) -> (r: Option<Error>)
    ensures
        r is Some <==> error_shape_ok(j),
        (r matches Some(e) ==> error_rel(j, e)),
{
    proof {
        reveal_strlit("code");
        reveal_strlit("msg");
        reveal_strlit("details");
        assert("code"@.len() == 4 && "code"@[0] == 'c');
        assert("msg"@.len() == 3 && "msg"@[0] == 'm');
        assert("details"@.len() == 7 && "details"@[0] == 'd');
        assert("msg"@ != "code"@);
        assert("details"@ != "code"@);
        assert("details"@ != "msg"@);
    }
    let mut f = match j {
        Json::Obj(f) => f,
        _ => {
            return None;
        },
    };
    let code = match take_field(&mut f, "code") {
        Some(Json::Num(s)) => match parse_u64(s.as_str()) {
            Some(v) => v,
            None => {
                return None;
            },
        },
        _ => {
            return None;
        },
    };
    let msg = match take_field(&mut f, "msg") {
        Some(Json::Str(s)) => s,
        _ => {
            return None;
        },
    };
    let details = match take_field(&mut f, "details") {
        None => None,
        Some(Json::Null) => None,
        Some(Json::Str(s)) => Some(s),
        Some(_) => {
            return None;
        },
    };
    Some(Error { code, msg, details })
}

} // verus!

verus! {

pub open spec fn opt_bool_ok(f: Seq<(String, Json)>, key: Seq<char>) -> bool {
    match spec_get(f, key) {
        None => true,
        Some(Json::Null) => true,
        Some(Json::Bool(_)) => true,
        _ => false,
    }
}

pub open spec fn ipam_fields_ok(g: Seq<(String, Json)>) -> bool {
    str_field(g, "type"@) is Some
}

pub open spec fn ipam_rel(g: Seq<(String, Json)>, ip: Ipam) -> bool {
    &&& Some(ip.type_@) == str_field(g, "type"@)
    &&& forall|k: Seq<char>|
        k != "type"@ ==> #[trigger] spec_get(ip.other@, k) == spec_get(g, k)
}

/// Extracts a delegate configuration: the executable name, with every
/// further key kept.
fn ipam_of_fields(fields: Vec<(String, Json)>) -> (r: Option<Ipam>)
    ensures
        r is Some <==> ipam_fields_ok(fields@),
        (r matches Some(ip) ==> ipam_rel(fields@, ip)),
{
    proof {
        reveal_strlit("type");
    }
    let mut f = fields;
    let type_ = match take_field(&mut f, "type") {
        Some(Json::Str(s)) => s,
        _ => {
            return None;
        },
    };
    Some(Ipam { type_, other: f })
}

/// The keys the plugin schema itself names.
pub open spec fn plugin_known_key(k: Seq<char>) -> bool {
    ||| k == "type"@
    ||| k == "capabilities"@
    ||| k == "ipMasq"@
    ||| k == "ipam"@
    ||| k == "dns"@
    ||| k == "prevResult"@
}

/// Every key outside the schema resolves among the kept fields exactly as
/// it did in the source fields: nothing unrecognized is dropped.
pub open spec fn plugin_extra_retained(f: Seq<(String, Json)>, extra: Seq<(String, Json)>) -> bool {
    forall|k: Seq<char>|
        !plugin_known_key(k) ==> #[trigger] spec_get(extra, k) == spec_get(f, k)
}

pub open spec fn plugin_fields_ok(f: Seq<(String, Json)>) -> bool {
    &&& str_field(f, "type"@) is Some
    &&& (match spec_get(f, "capabilities"@) {
        None => true,
        Some(Json::Null) => true,
        Some(Json::Obj(_)) => true,
        _ => false,
    })
    &&& opt_bool_ok(f, "ipMasq"@)
    &&& (match spec_get(f, "ipam"@) {
        None => true,
        Some(Json::Null) => true,
        Some(Json::Obj(g)) => ipam_fields_ok(g@),
        _ => false,
    })
    &&& (match spec_get(f, "dns"@) {
        None => true,
        Some(Json::Null) => true,
        Some(Json::Obj(g)) => dns_fields_ok(g@),
        _ => false,
    })
    &&& (match spec_get(f, "prevResult"@) {
        None => true,
        Some(Json::Null) => true,
        Some(v) => success_shape_ok(v),
    })
}

pub open spec fn plugin_fields_rel(f: Seq<(String, Json)>, p: PluginConfig) -> bool {
    &&& Some(p.type_@) == str_field(f, "type"@)
    &&& (match spec_get(f, "capabilities"@) {
        None => p.capabilities is None,
        Some(Json::Null) => p.capabilities is None,
        Some(Json::Obj(g)) => (p.capabilities matches Some(v) && v@ == g@),
        _ => false,
    })
    &&& opt_bool_rel(f, "ipMasq"@, p.ip_masquerade)
    &&& (match spec_get(f, "ipam"@) {
        None => p.ipam is None,
        Some(Json::Null) => p.ipam is None,
        Some(Json::Obj(g)) => (p.ipam matches Some(ip) && ipam_rel(g@, ip)),
        _ => false,
    })
    &&& (match spec_get(f, "dns"@) {
        None => p.dns is None,
        Some(Json::Null) => p.dns is None,
        Some(Json::Obj(g)) => (p.dns matches Some(d) && dns_fields_rel(g@, d)),
        _ => false,
    })
    &&& (match spec_get(f, "prevResult"@) {
        None => p.prev_result is None,
        Some(Json::Null) => p.prev_result is None,
        Some(v) => (p.prev_result matches Some(s) && success_rel(v, s)),
    })
}

/// Extracts one plugin entry from its fields; everything not named by
/// the schema stays with the entry verbatim.
fn plugin_of_fields(fields: Vec<(String, Json)>) -> (r: Option<PluginConfig>)
    ensures
        r is Some <==> plugin_fields_ok(fields@),
        (r matches Some(p) ==> plugin_fields_rel(fields@, p)),
        (r matches Some(p) ==> plugin_extra_retained(fields@, p.extra@)),
{
    proof {
        reveal_strlit("type");
        reveal_strlit("capabilities");
        reveal_strlit("ipMasq");
        reveal_strlit("ipam");
        reveal_strlit("dns");
        reveal_strlit("prevResult");
        assert("type"@.len() == 4 && "type"@[0] == 't');
        assert("capabilities"@.len() == 12 && "capabilities"@[0] == 'c');
        assert("ipMasq"@.len() == 6 && "ipMasq"@[0] == 'i');
        assert("ipam"@.len() == 4 && "ipam"@[0] == 'i');
        assert("dns"@.len() == 3 && "dns"@[0] == 'd');
        assert("prevResult"@.len() == 10 && "prevResult"@[0] == 'p');
        assert("capabilities"@ != "type"@);
        assert("ipMasq"@ != "type"@ && "ipMasq"@ != "capabilities"@);
        assert("ipam"@ != "type"@ && "ipam"@ != "capabilities"@ && "ipam"@ != "ipMasq"@);
        assert("dns"@ != "type"@ && "dns"@ != "capabilities"@ && "dns"@ != "ipMasq"@ && "dns"@
            != "ipam"@);
        assert("prevResult"@ != "type"@ && "prevResult"@ != "capabilities"@ && "prevResult"@
            != "ipMasq"@ && "prevResult"@ != "ipam"@ && "prevResult"@ != "dns"@);
    }
    let mut f = fields;
    let type_ = match take_field(&mut f, "type") {
        Some(Json::Str(s)) => s,
        _ => {
            return None;
        },
    };
    let capabilities = match take_field(&mut f, "capabilities") {
        None => None,
        Some(Json::Null) => None,
        Some(Json::Obj(g)) => Some(g),
        Some(_) => {
            return None;
        },
    };
    let ip_masquerade = match take_field(&mut f, "ipMasq") {
        None => None,
        Some(Json::Null) => None,
        Some(Json::Bool(b)) => Some(b),
        Some(_) => {
            return None;
        },
    };
    let ipam = match take_field(&mut f, "ipam") {
        None => None,
        Some(Json::Null) => None,
        Some(Json::Obj(g)) => match ipam_of_fields(g) {
            Some(ip) => Some(ip),
            None => {
                return None;
            },
        },
        Some(_) => {
            return None;
        },
    };
    let dns = match take_field(&mut f, "dns") {
        None => None,
        Some(Json::Null) => None,
        Some(Json::Obj(g)) => match dns_of_fields(g) {
            Some(d) => Some(d),
            None => {
                return None;
            },
        },
        Some(_) => {
            return None;
        },
    };
    let prev_result = match take_field(&mut f, "prevResult") {
        None => None,
        Some(Json::Null) => None,
        Some(v) => match success_of_json(v) {
            Some(s) => Some(s),
            None => {
                return None;
            },
        },
    };
    Some(
        PluginConfig {
            type_,
            capabilities,
            ip_masquerade,
            ipam,
            dns,
            prev_result,
            extra: f,
        },
    )
}

pub open spec fn plugin_elem_ok(e: Json) -> bool {
    match e {
        Json::Obj(g) => plugin_fields_ok(g@),
        _ => false,
    }
}

pub open spec fn plugin_elem_rel(e: Json, p: PluginConfig) -> bool {
    match e {
        Json::Obj(g) => plugin_fields_rel(g@, p) && plugin_extra_retained(g@, p.extra@),
        _ => false,
    }
}

pub open spec fn plugins_list_rel(a: Seq<Json>, v: Seq<PluginConfig>) -> bool {
    &&& v.len() == a.len()
    &&& forall|i: int| 0 <= i < a.len() ==> plugin_elem_rel(#[trigger] a[i], v[i])
}

#[verifier::loop_isolation(false)]
fn plugins_of_arr(items: Vec<Json>) -> (r: Option<Vec<PluginConfig>>)
    ensures
        r is Some <==> (forall|i: int|
            0 <= i < items@.len() ==> plugin_elem_ok(#[trigger] items@[i])),
        (r matches Some(v) ==> plugins_list_rel(items@, v@)),
{
    let ghost orig = items@;
    let mut rest = items;
    let mut out: Vec<PluginConfig> = Vec::new();
    while rest.len() > 0
        invariant
            out@.len() + rest@.len() == orig.len(),
            rest@ =~= orig.skip(out@.len() as int),
            forall|i: int| 0 <= i < out@.len() ==> plugin_elem_ok(#[trigger] orig[i]),
            forall|i: int| 0 <= i < out@.len() ==> plugin_elem_rel(#[trigger] orig[i], out@[i]),
        decreases rest@.len(),
    {
        let ghost k = out@.len() as int;
        proof {
            assert(orig.skip(k)[0] == orig[k]);
        }
        let it = rest.remove(0);
        proof {
            assert(rest@ =~= orig.skip(k + 1));
        }
        match it {
            Json::Obj(g) => match plugin_of_fields(g) {
                Some(p) => out.push(p),
                None => {
                    return None;
                },
            },
            _ => {
                return None;
            },
        }
    }
    Some(out)
}

pub open spec fn config_shape_ok(j: Json) -> bool {
    match j {
        Json::Obj(f) => {
            &&& str_field(f@, "cniVersion"@) is Some
            &&& str_field(f@, "name"@) is Some
            &&& opt_bool_ok(f@, "disable_check"@)
            &&& (match spec_get(f@, "plugins"@) {
                Some(Json::Arr(a)) => forall|i: int|
                    0 <= i < a@.len() ==> plugin_elem_ok(#[trigger] a@[i]),
                _ => false,
            })
        },
        _ => false,
    }
}

/// The exact content of an extracted administrator configuration: names
/// verbatim, and exactly the declared number of plugin entries, each with
/// its type string kept verbatim.
pub open spec fn config_rel(j: Json, c: Config) -> bool {
    match j {
        Json::Obj(f) => {
            &&& Some(c.cni_version@) == str_field(f@, "cniVersion"@)
            &&& Some(c.name@) == str_field(f@, "name"@)
            &&& opt_bool_rel(f@, "disable_check"@, c.disable_check)
            &&& (match spec_get(f@, "plugins"@) {
                Some(Json::Arr(a)) => plugins_list_rel(a@, c.plugins@),
                _ => false,
            })
        },
        _ => false,
    }
}

/// Extracts the administrator-facing configuration document: it succeeds
/// exactly on well-shaped documents, and then yields exactly the declared
/// number of plugin entries, each preserving its type string verbatim.
pub fn config_of_json(j: Json) -> (r: Option<Config>)
    ensures
        r is Some <==> config_shape_ok(j),
        (r matches Some(c) ==> config_rel(j, c)),
{
    proof {
        reveal_strlit("cniVersion");
        reveal_strlit("name");
        reveal_strlit("disable_check");
        reveal_strlit("plugins");
        assert("cniVersion"@.len() == 10 && "cniVersion"@[0] == 'c');
        assert("name"@.len() == 4 && "name"@[0] == 'n');
        assert("disable_check"@.len() == 13 && "disable_check"@[0] == 'd');
        assert("plugins"@.len() == 7 && "plugins"@[0] == 'p');
        assert("name"@ != "cniVersion"@);
        assert("disable_check"@ != "cniVersion"@ && "disable_check"@ != "name"@);
        assert("plugins"@ != "cniVersion"@ && "plugins"@ != "name"@ && "plugins"@
            != "disable_check"@);
    }
    let mut f = match j {
        Json::Obj(f) => f,
        _ => {
            return None;
        },
    };
    let cni_version = match take_field(&mut f, "cniVersion") {
        Some(Json::Str(s)) => s,
        _ => {
            return None;
        },
    };
    let name = match take_field(&mut f, "name") {
        Some(Json::Str(s)) => s,
        _ => {
            return None;
        },
    };
    let disable_check = match take_field(&mut f, "disable_check") {
        None => None,
        Some(Json::Null) => None,
        Some(Json::Bool(b)) => Some(b),
        Some(_) => {
            return None;
        },
    };
    let plugins = match take_field(&mut f, "plugins") {
        Some(Json::Arr(items)) => match plugins_of_arr(items) {
            Some(v) => v,
            None => {
                return None;
            },
        },
        _ => {
            return None;
        },
    };
    Some(Config { cni_version, name, disable_check, plugins })
}

pub open spec fn network_config_shape_ok(j: Json) -> bool {
    match j {
        Json::Obj(f) => {
            &&& str_field(f@, "cniVersion"@) is Some
            &&& str_field(f@, "name"@) is Some
            &&& opt_bool_ok(f@, "disable_check"@)
            &&& plugin_fields_ok(f@)
        },
        _ => false,
    }
}

/// The exact content of an extracted per-invocation configuration: the
/// plugin entry is flattened into the top-level document.
pub open spec fn network_config_rel(j: Json, c: NetworkConfig) -> bool {
    match j {
        Json::Obj(f) => {
            &&& Some(c.cni_version@) == str_field(f@, "cniVersion"@)
            &&& Some(c.name@) == str_field(f@, "name"@)
            &&& opt_bool_rel(f@, "disable_check"@, c.disable_check)
            &&& plugin_fields_rel(f@, c.plugin)
        },
        _ => false,
    }
}

/// In a flattened document, every key outside the plugin schema and
/// outside the document's own three keys stays with the plugin entry
/// verbatim.
pub open spec fn network_config_extra_retained(j: Json, c: NetworkConfig) -> bool {
    match j {
        Json::Obj(f) => forall|k: Seq<char>|
            (!plugin_known_key(k) && k != "cniVersion"@ && k != "name"@ && k
                != "disable_check"@) ==> #[trigger] spec_get(c.plugin.extra@, k) == spec_get(
                f@,
                k,
            ),
        _ => false,
    }
}

/// Extracts the per-invocation configuration document handed on standard
/// input, with the plugin's own keys flattened into it.
pub fn network_config_of_json(j: Json) -> (r: Option<NetworkConfig>)
    ensures
        r is Some <==> network_config_shape_ok(j),
        (r matches Some(c) ==> network_config_rel(j, c)),
        (r matches Some(c) ==> network_config_extra_retained(j, c)),
{
    proof {
        reveal_strlit("cniVersion");
        reveal_strlit("name");
        reveal_strlit("disable_check");
        reveal_strlit("type");
        reveal_strlit("capabilities");
        reveal_strlit("ipMasq");
        reveal_strlit("ipam");
        reveal_strlit("dns");
        reveal_strlit("prevResult");
        assert("cniVersion"@.len() == 10 && "cniVersion"@[0] == 'c');
        assert("name"@.len() == 4 && "name"@[0] == 'n');
        assert("disable_check"@.len() == 13 && "disable_check"@[0] == 'd');
        assert("type"@.len() == 4 && "type"@[0] == 't');
        assert("capabilities"@.len() == 12 && "capabilities"@[0] == 'c');
        assert("ipMasq"@.len() == 6 && "ipMasq"@[0] == 'i');
        assert("ipam"@.len() == 4 && "ipam"@[0] == 'i');
        assert("dns"@.len() == 3 && "dns"@[0] == 'd');
        assert("prevResult"@.len() == 10 && "prevResult"@[0] == 'p');
        assert("name"@ != "cniVersion"@);
        assert("disable_check"@ != "cniVersion"@ && "disable_check"@ != "name"@);
        assert("type"@ != "cniVersion"@ && "type"@ != "name"@ && "type"@ != "disable_check"@);
        assert("capabilities"@ != "cniVersion"@ && "capabilities"@ != "name"@ && "capabilities"@
            != "disable_check"@);
        assert("ipMasq"@ != "cniVersion"@ && "ipMasq"@ != "name"@ && "ipMasq"@
            != "disable_check"@);
        assert("ipam"@ != "cniVersion"@ && "ipam"@ != "name"@ && "ipam"@ != "disable_check"@);
        assert("dns"@ != "cniVersion"@ && "dns"@ != "name"@ && "dns"@ != "disable_check"@);
        assert("prevResult"@ != "cniVersion"@ && "prevResult"@ != "name"@ && "prevResult"@
            != "disable_check"@);
    }
    let mut f = match j {
        Json::Obj(f) => f,
        _ => {
            return None;
        },
    };
    let cni_version = match take_field(&mut f, "cniVersion") {
        Some(Json::Str(s)) => s,
        _ => {
            return None;
        },
    };
    let name = match take_field(&mut f, "name") {
        Some(Json::Str(s)) => s,
        _ => {
            return None;
        },
    };
    let disable_check = match take_field(&mut f, "disable_check") {
        None => None,
        Some(Json::Null) => None,
        Some(Json::Bool(b)) => Some(b),
        Some(_) => {
            return None;
        },
    };
    let plugin = match plugin_of_fields(f) {
        Some(p) => p,
        None => {
            return None;
        },
    };
    Some(NetworkConfig { cni_version, name, disable_check, plugin })
}

} // verus!

