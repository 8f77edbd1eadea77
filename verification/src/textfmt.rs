//! Small verified text builders: hexadecimal and decimal rendering, the
//! generated host-side veth interface name, hardware-address formatting,
//! and the one firewall rule the attach operation installs.

use vstd::prelude::*;

verus! {

/// Relies on rand::random for interface-name entropy; nothing is assumed of
/// the value drawn.
pub assume_specification<T>[ rand::random::<T> ]() -> (r: T)
    where
        rand::distributions::Standard: rand::distributions::Distribution<T>,
;

pub open spec fn is_lower_hex_digit(c: char) -> bool {
    ('0' <= c && c <= '9') || ('a' <= c && c <= 'f')
}

/// The lowercase hexadecimal digit for a value below sixteen.
pub open spec fn spec_hex_digit(n: int) -> char {
    if n == 0 {
        '0'
    } else if n == 1 {
        '1'
    } else if n == 2 {
        '2'
    } else if n == 3 {
        '3'
    } else if n == 4 {
        '4'
    } else if n == 5 {
        '5'
    } else if n == 6 {
        '6'
    } else if n == 7 {
        '7'
    } else if n == 8 {
        '8'
    } else if n == 9 {
        '9'
    } else if n == 10 {
        'a'
    } else if n == 11 {
        'b'
    } else if n == 12 {
        'c'
    } else if n == 13 {
        'd'
    } else if n == 14 {
        'e'
    } else {
        'f'
    }
}

/// Two lowercase hexadecimal digits for one byte.
pub open spec fn spec_byte_hex(b: int) -> Seq<char> {
    seq![spec_hex_digit(b / 16), spec_hex_digit(b % 16)]
}

fn hex_digit_str(n: u8) -> (r: &'static str)
    requires
        n < 16,
    ensures
        r@ =~= seq![spec_hex_digit(n as int)],
{
    proof {
        reveal_strlit("0");
        reveal_strlit("1");
        reveal_strlit("2");
        reveal_strlit("3");
        reveal_strlit("4");
        reveal_strlit("5");
        reveal_strlit("6");
        reveal_strlit("7");
        reveal_strlit("8");
        reveal_strlit("9");
        reveal_strlit("a");
        reveal_strlit("b");
        reveal_strlit("c");
        reveal_strlit("d");
        reveal_strlit("e");
        reveal_strlit("f");
    }
    match n {
        0 => "0",
        1 => "1",
        2 => "2",
        3 => "3",
        4 => "4",
        5 => "5",
        6 => "6",
        7 => "7",
        8 => "8",
        9 => "9",
        10 => "a",
        11 => "b",
        12 => "c",
        13 => "d",
        14 => "e",
        _ => "f",
    }
}

/// Appends one byte as two lowercase hexadecimal digits.
fn push_byte_hex(out: &mut String, b: u8)
    ensures
        final(out)@ == old(out)@ + spec_byte_hex(b as int),
{
    out.append(hex_digit_str(b / 16));
    out.append(hex_digit_str(b % 16));
    assert(final(out)@ =~= old(out)@ + spec_byte_hex(b as int));
}

/// Generates the host-side veth interface name: the fixed prefix followed
/// by eight random lowercase hexadecimal digits, twelve characters in all.
pub fn veth_name() -> (r: String)
    ensures
        r@.len() == 12,
        r@.subrange(0, 4) == "veth"@,
        forall|i: int| 4 <= i < 12 ==> is_lower_hex_digit(#[trigger] r@[i]),
{
    let entropy: u32 = rand::random();
    let b0: u8 = #[verifier::truncate] ((entropy >> 24) as u8);
    let b1: u8 = #[verifier::truncate] ((entropy >> 16) as u8);
    let b2: u8 = #[verifier::truncate] ((entropy >> 8) as u8);
    let b3: u8 = #[verifier::truncate] (entropy as u8);
    let mut name = String::from_str("veth");
    push_byte_hex(&mut name, b0);
    push_byte_hex(&mut name, b1);
    push_byte_hex(&mut name, b2);
    push_byte_hex(&mut name, b3);
    proof {
        reveal_strlit("veth");
        assert(name@.subrange(0, 4) =~= "veth"@);
    }
    name
}

/// A generated interface name — the fixed prefix and lowercase
/// hexadecimal digits — is ASCII text.
pub proof fn lemma_veth_name_ascii(s: Seq<char>)
    requires
        s.len() == 12,
        s.subrange(0, 4) == "veth"@,
        forall|i: int| 4 <= i < 12 ==> is_lower_hex_digit(#[trigger] s[i]),
    ensures
        vstd::utf8::is_ascii_chars(s),
{
    reveal_strlit("veth");
    assert forall|i: int| 0 <= i < s.len() implies '\0' <= #[trigger] s[i] <= '\u{7f}' by {
        if i < 4 {
            assert(s[i] == s.subrange(0, 4)[i]);
        }
    }
}

/// The colon-separated lowercase hexadecimal rendering of a six-byte
/// hardware address.
pub open spec fn spec_mac_string(m: Seq<u8>) -> Seq<char> {
    spec_byte_hex(m[0] as int) + seq![':'] + spec_byte_hex(m[1] as int) + seq![':'] + spec_byte_hex(
        m[2] as int,
    ) + seq![':'] + spec_byte_hex(m[3] as int) + seq![':'] + spec_byte_hex(m[4] as int) + seq![':']
        + spec_byte_hex(m[5] as int)
}

/// Formats a six-byte hardware address as colon-separated hexadecimal.
pub fn mac_string(mac: &Vec<u8>) -> (r: String)
    requires
        mac@.len() == 6,
    ensures
        r@ == spec_mac_string(mac@),
{
    let mut out = String::new();
    push_byte_hex(&mut out, mac[0]);
    out.append(":");
    push_byte_hex(&mut out, mac[1]);
    out.append(":");
    push_byte_hex(&mut out, mac[2]);
    out.append(":");
    push_byte_hex(&mut out, mac[3]);
    out.append(":");
    push_byte_hex(&mut out, mac[4]);
    out.append(":");
    push_byte_hex(&mut out, mac[5]);
    proof {
        reveal_strlit(":");
        assert(out@ =~= spec_mac_string(mac@));
    }
    out
}

/// Decimal rendering of a nonnegative number, without leading zeros.
pub open spec fn spec_dec_string(n: int) -> Seq<char>
    decreases n,
{
    if n < 10 {
        seq![spec_hex_digit(n)]
    } else {
        spec_dec_string(n / 10) + seq![spec_hex_digit(n % 10)]
    }
}

/// Appends the decimal rendering of a number.
pub fn push_dec(out: &mut String, n: u64)
    ensures
        final(out)@ == old(out)@ + spec_dec_string(n as int),
    decreases n,
{
    if n < 10 {
        out.append(hex_digit_str(n as u8));
        assert(final(out)@ =~= old(out)@ + spec_dec_string(n as int));
    } else {
        push_dec(out, n / 10);
        out.append(hex_digit_str((n % 10) as u8));
        assert(final(out)@ =~= old(out)@ + spec_dec_string(n as int));
    }
}

/// The detail text reported for a refused routing-protocol request, naming
/// the kernel's (signed) error code.
pub open spec fn spec_netlink_error_text(raw: u32) -> Seq<char> {
    if raw >= 0x8000_0000 {
        "netlink error code -"@ + spec_dec_string(0x1_0000_0000 - raw)
    } else {
        "netlink error code "@ + spec_dec_string(raw as int)
    }
}

/// Renders the detail text for a refused routing-protocol request; the
/// kernel reports errors as negated errno values in a 32-bit field.
pub fn netlink_error_text(raw: u32) -> (r: String)
    ensures
        r@ == spec_netlink_error_text(raw),
{
    if raw >= 0x8000_0000 {
        let mut out = String::from_str("netlink error code -");
        let mag: u64 = 0x1_0000_0000u64 - (raw as u64);
        push_dec(&mut out, mag);
        out
    } else {
        let mut out = String::from_str("netlink error code ");
        push_dec(&mut out, raw as u64);
        out
    }
}

/// The one forwarding-accept firewall rule installed for a host-side
/// interface.
pub fn forward_rule(ifname: &str) -> (r: String)
    ensures
        r@ == "-i "@ + ifname@ + " -j ACCEPT"@,
{
    let mut out = String::from_str("-i ");
    out.append(ifname);
    out.append(" -j ACCEPT");
    out
}

} // verus!

verus! {

/// The decimal rendering consists of digits, values back to the number
/// it renders, is as short as the number allows, and never starts with a
/// zero unless it is the single digit zero.
pub proof fn lemma_dec_string_shape(n: int)
    requires
        0 <= n,
    ensures
        spec_dec_string(n).len() >= 1,
        forall|i: int|
            0 <= i < spec_dec_string(n).len() ==> crate::addr::is_digit(
                #[trigger] spec_dec_string(n)[i],
            ),
        crate::addr::dec_text_val(spec_dec_string(n)) == n,
        n < 10 ==> spec_dec_string(n).len() == 1,
        n < 100 ==> spec_dec_string(n).len() <= 2,
        n < 1000 ==> spec_dec_string(n).len() <= 3,
        n >= 1 ==> (spec_dec_string(n)[0] as u32) != 48,
    decreases n,
{
    if n < 10 {
        assert(crate::addr::dec_text_val(spec_dec_string(n)) == n) by {
            assert(spec_dec_string(n).drop_last() =~= Seq::<char>::empty());
            assert(spec_dec_string(n).last() == spec_hex_digit(n));
            assert(crate::addr::dec_text_val(Seq::<char>::empty()) == 0);
            assert(crate::addr::digit_val(spec_hex_digit(n)) == n);
        }
    } else {
        lemma_dec_string_shape(n / 10);
        let s = spec_dec_string(n);
        let h = spec_dec_string(n / 10);
        assert(s == h + seq![spec_hex_digit(n % 10)]);
        assert(s.drop_last() =~= h);
        assert(s.last() == spec_hex_digit(n % 10));
        assert(crate::addr::dec_text_val(s) == crate::addr::dec_text_val(h) * 10 + (n % 10));
        assert forall|i: int| 0 <= i < s.len() implies crate::addr::is_digit(
            #[trigger] s[i],
        ) by {
            if i < h.len() {
                assert(s[i] == h[i]);
            }
        }
        assert(s[0] == h[0]);
    }
}

} // verus!
