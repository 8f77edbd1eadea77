//! IPv4 address text handling: strict dotted-quad parsing and the
//! address-in-CIDR form whose prefix length the attach path discards.

use vstd::prelude::*;

verus! {

/// An IPv4 address as four octets, most significant first.
#[derive(Clone, Copy, Debug, PartialEq, Eq, Structural)]
pub struct Ipv4Addr {
    pub o0: u8,
    pub o1: u8,
    pub o2: u8,
    pub o3: u8,
}

/// The four octets in network order, as the wire codec sends them.
pub open spec fn spec_addr_bytes(a: Ipv4Addr) -> Seq<u8> {
    seq![a.o0, a.o1, a.o2, a.o3]
}

pub open spec fn is_digit(c: char) -> bool {
    48 <= (c as u32) && (c as u32) <= 57
}

pub open spec fn digit_val(c: char) -> int {
    (c as u32) - 48
}

/// The numeric value of a run of decimal digits, most significant first.
pub open spec fn dec_text_val(s: Seq<char>) -> int
    decreases s.len(),
{
    if s.len() == 0 {
        0
    } else {
        dec_text_val(s.drop_last()) * 10 + digit_val(s.last())
    }
}

/// Strict octet text: one to three decimal digits, no leading zero on a
/// multi-digit run, value at most 255.
pub open spec fn valid_octet_text(s: Seq<char>) -> bool {
    &&& 1 <= s.len() <= 3
    &&& forall|i: int| 0 <= i < s.len() ==> is_digit(#[trigger] s[i])
    &&& s.len() > 1 ==> (s[0] as u32) != 48
    &&& dec_text_val(s) <= 255
}

/// Index of the first dot at or after `from`, or the length when none.
pub open spec fn spec_find_dot(s: Seq<char>, from: int) -> int
    decreases s.len() - from,
{
    if from < 0 || from >= s.len() {
        s.len() as int
    } else if s[from] == '.' {
        from
    } else {
        spec_find_dot(s, from + 1)
    }
}

/// Strict dotted-quad grammar: four valid octet texts joined by exactly
/// three dots.
pub open spec fn spec_parse_ipv4(s: Seq<char>) -> Option<Ipv4Addr> {
    let i = spec_find_dot(s, 0);
    let j = spec_find_dot(s, i + 1);
    let k = spec_find_dot(s, j + 1);
    let l = spec_find_dot(s, k + 1);
    if i < s.len() && j < s.len() && k < s.len() && l == s.len() && valid_octet_text(
        s.subrange(0, i),
    ) && valid_octet_text(s.subrange(i + 1, j)) && valid_octet_text(s.subrange(j + 1, k))
        && valid_octet_text(s.subrange(k + 1, s.len() as int)) {
        Some(
            (Ipv4Addr {
                o0: dec_text_val(s.subrange(0, i)) as u8,
                o1: dec_text_val(s.subrange(i + 1, j)) as u8,
                o2: dec_text_val(s.subrange(j + 1, k)) as u8,
                o3: dec_text_val(s.subrange(k + 1, s.len() as int)) as u8,
            }),
        )
    } else {
        None
    }
}

fn find_dot(s: &str, from: usize) -> (r: usize)
    requires
        from <= s@.len(),
    ensures
        r as int == spec_find_dot(s@, from as int),
        from <= r <= s@.len(),
{
    let n = s.unicode_len();
    let mut i = from;
    while i < n
        invariant
            from <= i <= n,
            n == s@.len(),
            spec_find_dot(s@, from as int) == spec_find_dot(s@, i as int),
        decreases n - i,
    {
        if s.get_char(i) == '.' {
            return i;
        }
        i = i + 1;
    }
    i
}

fn parse_octet(s: &str, from: usize, to: usize) -> (r: Option<u8>)
    requires
        from <= to <= s@.len(),
    ensures
        r is Some <==> valid_octet_text(s@.subrange(from as int, to as int)),
        r is Some ==> r->0 as int == dec_text_val(s@.subrange(from as int, to as int)),
{
    let ghost text = s@.subrange(from as int, to as int);
    if to - from < 1 || to - from > 3 {
        return None;
    }
    if to - from > 1 && (s.get_char(from) as u32) == 48 {
        return None;
    }
    let mut val: u32 = 0;
    let mut i = from;
    while i < to
        invariant
            from <= i <= to,
            to <= s@.len(),
            to - from <= 3,
            text == s@.subrange(from as int, to as int),
            forall|m: int| from <= m < i ==> is_digit(#[trigger] s@[m]),
            val as int == dec_text_val(s@.subrange(from as int, i as int)),
            val as int <= 999,
        decreases to - i,
    {
        let c = s.get_char(i);
        let cv = c as u32;
        if cv < 48 || cv > 57 {
            assert(!valid_octet_text(text)) by {
                assert(text[i - from] == s@[i as int]);
            }
            return None;
        }
        proof {
            assert(s@.subrange(from as int, i + 1).drop_last() =~= s@.subrange(
                from as int,
                i as int,
            ));
            assert(s@.subrange(from as int, i + 1).last() == s@[i as int]);
            if i - from >= 2 {
                assert(dec_text_val(s@.subrange(from as int, i as int)) <= 99 ==> val <= 99);
                // a three-digit run starting above 9 in its first two digits
                // cannot stay under 1000 only if the prefix was at most 99
                assert(val <= 99) by {
                    assert(val as int == dec_text_val(s@.subrange(from as int, i as int)));
                    lemma_dec_text_val_bounds(s@.subrange(from as int, i as int));
                }
            } else {
                lemma_dec_text_val_bounds(s@.subrange(from as int, i as int));
                assert(val <= 99);
            }
        }
        val = val * 10 + (cv - 48);
        i = i + 1;
    }
    proof {
        assert(s@.subrange(from as int, to as int) =~= text);
        assert forall|m: int| 0 <= m < text.len() implies is_digit(#[trigger] text[m]) by {
            assert(text[m] == s@[from + m]);
        }
    }
    if val > 255 {
        return None;
    }
    Some(val as u8)
}

/// Every run of at most two digits values below 100; at most three, below
/// 1000.
pub proof fn lemma_dec_text_val_bounds(s: Seq<char>)
    requires
        forall|i: int| 0 <= i < s.len() ==> is_digit(#[trigger] s[i]),
    ensures
        s.len() == 0 ==> dec_text_val(s) == 0,
        s.len() <= 1 ==> 0 <= dec_text_val(s) <= 9,
        s.len() <= 2 ==> 0 <= dec_text_val(s) <= 99,
        s.len() <= 3 ==> 0 <= dec_text_val(s) <= 999,
        0 <= dec_text_val(s),
    decreases s.len(),
{
    if s.len() > 0 {
        assert forall|i: int| 0 <= i < s.drop_last().len() implies is_digit(
            #[trigger] s.drop_last()[i],
        ) by {
            assert(s.drop_last()[i] == s[i]);
        }
        lemma_dec_text_val_bounds(s.drop_last());
        assert(is_digit(s[s.len() - 1]));
        assert(0 <= digit_val(s.last()) <= 9);
    }
}

/// Parses strict dotted-quad IPv4 address text.
pub fn parse_ipv4(s: &str) -> (r: Option<Ipv4Addr>)
    ensures
        r == spec_parse_ipv4(s@),
{
    let n = s.unicode_len();
    let i = find_dot(s, 0);
    if i == n {
        return None;
    }
    let j = find_dot(s, i + 1);
    if j == n {
        return None;
    }
    let k = find_dot(s, j + 1);
    if k == n {
        return None;
    }
    let l = find_dot(s, k + 1);
    if l != n {
        return None;
    }
    let p0 = parse_octet(s, 0, i);
    let p1 = parse_octet(s, i + 1, j);
    let p2 = parse_octet(s, j + 1, k);
    let p3 = parse_octet(s, k + 1, n);
    match (p0, p1, p2, p3) {
        (Some(o0), Some(o1), Some(o2), Some(o3)) => Some(Ipv4Addr { o0, o1, o2, o3 }),
        _ => None,
    }
}

/// Index of the last slash, or -1 when there is none.
pub open spec fn spec_rfind_slash(s: Seq<char>) -> int
    decreases s.len(),
{
    if s.len() == 0 {
        -1
    } else if s.last() == '/' {
        s.len() - 1
    } else {
        spec_rfind_slash(s.drop_last())
    }
}

pub proof fn lemma_rfind_slash_properties(s: Seq<char>)
    ensures
        -1 <= spec_rfind_slash(s) < s.len(),
        spec_rfind_slash(s) >= 0 ==> s[spec_rfind_slash(s)] == '/',
        forall|m: int| spec_rfind_slash(s) < m < s.len() ==> s[m] != '/',
    decreases s.len(),
{
    if s.len() == 0 {
    } else if s.last() == '/' {
    } else {
        lemma_rfind_slash_properties(s.drop_last());
        assert forall|m: int| spec_rfind_slash(s) < m < s.len() implies s[m] != '/' by {
            if m < s.len() - 1 {
                assert(s.drop_last()[m] == s[m]);
            }
        }
    }
}

/// The text before the last slash, or the whole text when there is none.
pub open spec fn spec_strip_prefix_len(s: Seq<char>) -> Seq<char> {
    let p = spec_rfind_slash(s);
    if p >= 0 {
        s.subrange(0, p)
    } else {
        s
    }
}

pub open spec fn spec_addr_from_cidr(s: Seq<char>) -> Option<Ipv4Addr> {
    spec_parse_ipv4(spec_strip_prefix_len(s))
}

fn rfind_slash(s: &str) -> (r: Option<usize>)
    ensures
        r is Some ==> r->0 as int == spec_rfind_slash(s@) && r->0 < s@.len(),
        r is None ==> spec_rfind_slash(s@) == -1,
{
    let n = s.unicode_len();
    let mut i = n;
    while i > 0
        invariant
            i <= n,
            n == s@.len(),
            forall|m: int| i <= m < s@.len() ==> s@[m] != '/',
        decreases i,
    {
        i = i - 1;
        if s.get_char(i) == '/' {
            proof {
                lemma_rfind_slash_properties(s@);
            }
            return Some(i);
        }
    }
    proof {
        lemma_rfind_slash_properties(s@);
    }
    None
}

/// Parses address-in-CIDR text by discarding everything from the last
/// slash on, then parsing the remainder as a bare address.
pub fn addr_from_cidr_checked(s: &str) -> (r: Option<Ipv4Addr>)
    ensures
        r == spec_addr_from_cidr(s@),
{
    match rfind_slash(s) {
        Some(p) => {
            let head = s.substring_char(0, p);
            parse_ipv4(head)
        },
        None => parse_ipv4(s),
    }
}

/// Parses address-in-CIDR text that is known to be well formed; the
/// prefix length, if present, is discarded.
pub fn ip4_addr_from_cidr(cidr: String) -> (r: Ipv4Addr)
    requires
        spec_addr_from_cidr(cidr@) is Some,
    ensures
        Some(r) == spec_addr_from_cidr(cidr@),
{
    match addr_from_cidr_checked(cidr.as_str()) {
        Some(a) => a,
        None => vstd::pervasive::unreached(),
    }
}

/// Law: for address-in-CIDR text, stripping the prefix length and parsing
/// equals parsing the bare address; the prefix-length text itself carries
/// no further slash.
pub proof fn lemma_cidr_strip_matches_bare(address: Seq<char>, prefix_len: Seq<char>)
    requires
        forall|m: int| 0 <= m < prefix_len.len() ==> prefix_len[m] != '/',
    ensures
        spec_addr_from_cidr(address + seq!['/'] + prefix_len) == spec_parse_ipv4(address),
{
    let s = address + seq!['/'] + prefix_len;
    lemma_rfind_slash_properties(s);
    assert(s[address.len() as int] == '/');
    assert forall|m: int| address.len() < m < s.len() implies s[m] != '/' by {
        assert(s[m] == prefix_len[m - address.len() - 1]);
    }
    let p = spec_rfind_slash(s);
    assert(p == address.len());
    assert(s.subrange(0, address.len() as int) =~= address);
}

} // verus!

verus! {

/// The dotted-quad text of an address.
pub open spec fn spec_addr_text(a: Ipv4Addr) -> Seq<char> {
    crate::textfmt::spec_dec_string(a.o0 as int) + seq!['.'] + crate::textfmt::spec_dec_string(
        a.o1 as int,
    ) + seq!['.'] + crate::textfmt::spec_dec_string(a.o2 as int) + seq!['.']
        + crate::textfmt::spec_dec_string(a.o3 as int)
}

proof fn lemma_find_dot_at(s: Seq<char>, from: int, i: int)
    requires
        0 <= from <= i <= s.len(),
        forall|m: int| from <= m < i ==> s[m] != '.',
        i < s.len() ==> s[i] == '.',
    ensures
        spec_find_dot(s, from) == i,
    decreases i - from,
{
    if from < i {
        lemma_find_dot_at(s, from + 1, i);
    }
}

/// Parsing the dotted-quad text of any address yields that address.
proof fn lemma_parse_of_addr_text(a: Ipv4Addr)
    ensures
        spec_parse_ipv4(spec_addr_text(a)) == Some(a),
{
    let d0 = crate::textfmt::spec_dec_string(a.o0 as int);
    let d1 = crate::textfmt::spec_dec_string(a.o1 as int);
    let d2 = crate::textfmt::spec_dec_string(a.o2 as int);
    let d3 = crate::textfmt::spec_dec_string(a.o3 as int);
    crate::textfmt::lemma_dec_string_shape(a.o0 as int);
    crate::textfmt::lemma_dec_string_shape(a.o1 as int);
    crate::textfmt::lemma_dec_string_shape(a.o2 as int);
    crate::textfmt::lemma_dec_string_shape(a.o3 as int);
    let s = spec_addr_text(a);
    let p1 = d0.len() as int;
    let p2 = p1 + 1 + d1.len();
    let p3 = p2 + 1 + d2.len();
    assert(s.subrange(0, p1) =~= d0);
    assert(s[p1] == '.');
    assert(s.subrange(p1 + 1, p2) =~= d1);
    assert(s[p2] == '.');
    assert(s.subrange(p2 + 1, p3) =~= d2);
    assert(s[p3] == '.');
    assert(s.subrange(p3 + 1, s.len() as int) =~= d3);
    assert forall|m: int| 0 <= m < p1 implies s[m] != '.' by {
        assert(s.subrange(0, p1)[m] == s[m]);
        assert(is_digit(d0[m]));
    }
    lemma_find_dot_at(s, 0, p1);
    assert forall|m: int| p1 + 1 <= m < p2 implies s[m] != '.' by {
        assert(s.subrange(p1 + 1, p2)[m - (p1 + 1)] == s[m]);
        assert(is_digit(d1[m - (p1 + 1)]));
    }
    lemma_find_dot_at(s, p1 + 1, p2);
    assert forall|m: int| p2 + 1 <= m < p3 implies s[m] != '.' by {
        assert(s.subrange(p2 + 1, p3)[m - (p2 + 1)] == s[m]);
        assert(is_digit(d2[m - (p2 + 1)]));
    }
    lemma_find_dot_at(s, p2 + 1, p3);
    assert forall|m: int| p3 + 1 <= m < s.len() implies s[m] != '.' by {
        assert(s.subrange(p3 + 1, s.len() as int)[m - (p3 + 1)] == s[m]);
        assert(is_digit(d3[m - (p3 + 1)]));
    }
    lemma_find_dot_at(s, p3 + 1, s.len() as int);
    assert(valid_octet_text(d0));
    assert(valid_octet_text(d1));
    assert(valid_octet_text(d2));
    assert(valid_octet_text(d3));
}

/// Law: for every address value, the address-in-CIDR text made of its
/// dotted-quad rendering, a slash and any prefix-length text parses back
/// to the same address by stripping, and the bare rendering parses back
/// to it directly.
pub proof fn lemma_addr_text_round_trip(a: Ipv4Addr, prefix_len: Seq<char>)
    requires
        forall|m: int| 0 <= m < prefix_len.len() ==> prefix_len[m] != '/',
    ensures
        spec_parse_ipv4(spec_addr_text(a)) == Some(a),
        spec_addr_from_cidr(spec_addr_text(a) + seq!['/'] + prefix_len) == Some(a),
{
    lemma_parse_of_addr_text(a);
    lemma_cidr_strip_matches_bare(spec_addr_text(a), prefix_len);
}

} // verus!
