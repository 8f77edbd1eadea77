//! Rendering of the outgoing protocol documents.
//!
//! A finished operation reports a result document on standard output and
//! a failed one an error document on standard error.  Their exact texts
//! are pinned here: numbers in decimal, every string quoted with JSON
//! string escaping, and optional parts present exactly when their field
//! is set.

use vstd::prelude::*;
use crate::json::push_char;
use crate::textfmt::{spec_dec_string, spec_hex_digit, push_dec};
use crate::types::{Dns, Error, Interface, Ip, Route, Success};

verus! {

/// JSON escaping of one character: the two-character escapes for the
/// quote, backslash and common controls, the `\u` form for the remaining
/// controls, and the character itself otherwise.
pub open spec fn spec_escape_char(c: char) -> Seq<char> {
    if c == '"' {
        seq!['\\', '"']
    } else if c == '\\' {
        seq!['\\', '\\']
    } else if c == '\n' {
        seq!['\\', 'n']
    } else if c == '\r' {
        seq!['\\', 'r']
    } else if c == '\t' {
        seq!['\\', 't']
    } else if (c as u32) < 0x20 {
        seq!['\\', 'u', '0', '0', spec_hex_digit((c as u32) as int / 16), spec_hex_digit((c as u32) as int % 16)]
    } else {
        seq![c]
    }
}

/// JSON escaping of a whole text.
pub open spec fn spec_escape(s: Seq<char>) -> Seq<char>
    decreases s.len(),
{
    if s.len() == 0 {
        Seq::empty()
    } else {
        spec_escape(s.drop_last()) + spec_escape_char(s.last())
    }
}

/// A quoted JSON string.
pub open spec fn spec_quoted(s: Seq<char>) -> Seq<char> {
    seq!['"'] + spec_escape(s) + seq!['"']
}

#[verifier::loop_isolation(false)]
fn push_quoted(out: &mut String, s: &str)
    ensures
        final(out)@ == old(out)@ + spec_quoted(s@),
{
    proof {
        reveal_strlit("\\\"");
        reveal_strlit("\\\\");
        reveal_strlit("\\n");
        reveal_strlit("\\r");
        reveal_strlit("\\t");
        reveal_strlit("\\u00");
    }
    push_char(out, '"');
    let n = s.unicode_len();
    let mut i: usize = 0;
    while i < n
        invariant
            i <= n,
            n == s@.len(),
            out@ == old(out)@ + seq!['"'] + spec_escape(s@.subrange(0, i as int)),
        decreases n - i,
    {
        let c = s.get_char(i);
        proof {
            assert(s@.subrange(0, i + 1).drop_last() =~= s@.subrange(0, i as int));
            assert(s@.subrange(0, i + 1).last() == s@[i as int]);
        }
        if c == '"' {
            out.append("\\\"");
        } else if c == '\\' {
            out.append("\\\\");
        } else if c == '\n' {
            out.append("\\n");
        } else if c == '\r' {
            out.append("\\r");
        } else if c == '\t' {
            out.append("\\t");
        } else if (c as u32) < 0x20 {
            let v = c as u32;
            out.append("\\u00");
            push_char(out, hex_digit_char((v / 16) as u8));
            push_char(out, hex_digit_char((v % 16) as u8));
        } else {
            push_char(out, c);
        }
        i = i + 1;
        assert(out@ =~= old(out)@ + seq!['"'] + spec_escape(s@.subrange(0, i as int)));
    }
    proof {
        assert(s@.subrange(0, n as int) =~= s@);
    }
    push_char(out, '"');
    assert(final(out)@ =~= old(out)@ + spec_quoted(s@));
}

fn hex_digit_char(n: u8) -> (r: char)
    requires
        n < 16,
    ensures
        r == spec_hex_digit(n as int),
{
    if n == 0 {
        '0'
    } else if n == 1 {
        '1'
    } else if n == 2 {
        '2'
    } else if n == 3 {
        '3'
    } else if n == 4 {
        '4'
    } else if n == 5 {
        '5'
    } else if n == 6 {
        '6'
    } else if n == 7 {
        '7'
    } else if n == 8 {
        '8'
    } else if n == 9 {
        '9'
    } else if n == 10 {
        'a'
    } else if n == 11 {
        'b'
    } else if n == 12 {
        'c'
    } else if n == 13 {
        'd'
    } else if n == 14 {
        'e'
    } else {
        'f'
    }
}

/// The exact text of an error document: code, message, and the detail
/// only when there is one.
pub open spec fn spec_error_doc(e: Error) -> Seq<char> {
    "{\"code\":"@ + spec_dec_string(e.code as int) + ",\"msg\":"@ + spec_quoted(e.msg@) + (
    match e.details {
        Some(d) => ",\"details\":"@ + spec_quoted(d@),
        None => Seq::<char>::empty(),
    }) + "}"@
}

/// Renders the error document a failed operation reports.
pub fn error_doc(e: &Error) -> (r: String)
    ensures
        r@ == spec_error_doc(*e),
{
    let mut out = String::from_str("{\"code\":");
    push_dec(&mut out, e.code);
    out.append(",\"msg\":");
    push_quoted(&mut out, e.msg.as_str());
    match &e.details {
        Some(d) => {
            out.append(",\"details\":");
            push_quoted(&mut out, d.as_str());
        },
        None => {},
    }
    out.append("}");
    proof {
        assert(out@ =~= spec_error_doc(*e));
    }
    out
}

} // verus!

verus! {

/// One address assignment: address and gateway, and the interface index
/// only when there is one.
pub open spec fn spec_ip_doc(ip: Ip) -> Seq<char> {
    "{\"address\":"@ + spec_quoted(ip.address@) + ",\"gateway\":"@ + spec_quoted(ip.gateway@) + (
    match ip.interface {
        Some(v) => ",\"interface\":"@ + spec_dec_string(v as int),
        None => Seq::<char>::empty(),
    }) + "}"@
}

/// One route: the destination, and the next hop only when there is one.
pub open spec fn spec_route_doc(rt: Route) -> Seq<char> {
    "{\"dst\":"@ + spec_quoted(rt.dst@) + (match rt.gw {
        Some(g) => ",\"gw\":"@ + spec_quoted(g@),
        None => Seq::<char>::empty(),
    }) + "}"@
}

/// One interface record: the name, and the hardware address and
/// namespace only when present.
pub open spec fn spec_iface_doc(e: Interface) -> Seq<char> {
    "{\"name\":"@ + spec_quoted(e.name@) + (match e.mac {
        Some(m) => ",\"mac\":"@ + spec_quoted(m@),
        None => Seq::<char>::empty(),
    }) + (match e.sandbox {
        Some(sb) => ",\"sandbox\":"@ + spec_quoted(sb@),
        None => Seq::<char>::empty(),
    }) + "}"@
}

/// Comma-joined parts.
pub open spec fn spec_comma_join(parts: Seq<Seq<char>>) -> Seq<char>
    decreases parts.len(),
{
    if parts.len() == 0 {
        Seq::empty()
    } else if parts.len() == 1 {
        parts[0]
    } else {
        spec_comma_join(parts.drop_last()) + seq![','] + parts.last()
    }
}

pub open spec fn spec_ips_docs(v: Seq<Ip>) -> Seq<Seq<char>> {
    v.map(|k: int, ip: Ip| spec_ip_doc(ip))
}

pub open spec fn spec_routes_docs(v: Seq<Route>) -> Seq<Seq<char>> {
    v.map(|k: int, rt: Route| spec_route_doc(rt))
}

pub open spec fn spec_ifaces_docs(v: Seq<Interface>) -> Seq<Seq<char>> {
    v.map(|k: int, e: Interface| spec_iface_doc(e))
}

pub open spec fn spec_quoted_docs(v: Seq<String>) -> Seq<Seq<char>> {
    v.map(|k: int, s: String| spec_quoted(s@))
}

/// A list-valued DNS part: nothing when the field is unset, else the
/// label, the quoted entries, and the closing bracket, with a leading
/// comma when an earlier part was written.
#[verifier::opaque]
pub open spec fn spec_list_part(sep: bool, label: Seq<char>, items: Option<Vec<String>>) -> Seq<
    char,
> {
    match items {
        Some(v) => (if sep {
            seq![',']
        } else {
            Seq::<char>::empty()
        }) + label + spec_comma_join(spec_quoted_docs(v@)) + "]"@,
        None => Seq::<char>::empty(),
    }
}

/// The domain DNS part, quoted, with a leading comma when an earlier
/// part was written.
#[verifier::opaque]
pub open spec fn spec_domain_part(sep: bool, dom: Option<String>) -> Seq<char> {
    match dom {
        Some(x) => (if sep {
            seq![',']
        } else {
            Seq::<char>::empty()
        }) + "\"domain\":"@ + spec_quoted(x@),
        None => Seq::<char>::empty(),
    }
}

/// The DNS object: only the fields that are set, in declaration order,
/// with a comma before every part that follows another.
pub open spec fn spec_dns_doc(d: Dns) -> Seq<char> {
    seq!['{'] + spec_list_part(false, "\"nameservers\":["@, d.nameservers) + spec_domain_part(
        d.nameservers is Some,
        d.domain,
    ) + spec_list_part(
        d.nameservers is Some || d.domain is Some,
        "\"search\":["@,
        d.search,
    ) + spec_list_part(
        d.nameservers is Some || d.domain is Some || d.search is Some,
        "\"options\":["@,
        d.options,
    ) + seq!['}']
}

/// The exact text of a result document: the version, the interface list
/// only when there is one, the addresses, the routes, and the DNS object.
pub open spec fn spec_success_doc(s: Success) -> Seq<char> {
    "{\"cniVersion\":"@ + spec_quoted(s.cni_version@) + (match s.interfaces {
        Some(v) => ",\"interfaces\":["@ + spec_comma_join(spec_ifaces_docs(v@)) + "]"@,
        None => Seq::<char>::empty(),
    }) + ",\"ips\":["@ + spec_comma_join(spec_ips_docs(s.ips@)) + "],\"routes\":["@
        + spec_comma_join(spec_routes_docs(s.routes@)) + "],\"dns\":"@ + spec_dns_doc(s.dns) + "}"@
}

proof fn lemma_comma_join_push(parts: Seq<Seq<char>>, x: Seq<char>)
    ensures
        spec_comma_join(parts.push(x)) == (if parts.len() == 0 {
            x
        } else {
            spec_comma_join(parts) + seq![','] + x
        }),
{
    let p2 = parts.push(x);
    assert(p2.drop_last() =~= parts);
    assert(p2.last() == x);
    if parts.len() == 0 {
        assert(p2.len() == 1);
        assert(p2[0] == x);
    }
}

fn push_ip(out: &mut String, ip: &Ip)
    ensures
        final(out)@ == old(out)@ + spec_ip_doc(*ip),
{
    out.append("{\"address\":");
    push_quoted(out, ip.address.as_str());
    out.append(",\"gateway\":");
    push_quoted(out, ip.gateway.as_str());
    match &ip.interface {
        Some(v) => {
            out.append(",\"interface\":");
            push_dec(out, *v);
        },
        None => {},
    }
    out.append("}");
    assert(final(out)@ =~= old(out)@ + spec_ip_doc(*ip));
}

fn push_route(out: &mut String, rt: &Route)
    ensures
        final(out)@ == old(out)@ + spec_route_doc(*rt),
{
    out.append("{\"dst\":");
    push_quoted(out, rt.dst.as_str());
    match &rt.gw {
        Some(g) => {
            out.append(",\"gw\":");
            push_quoted(out, g.as_str());
        },
        None => {},
    }
    out.append("}");
    assert(final(out)@ =~= old(out)@ + spec_route_doc(*rt));
}

fn push_iface(out: &mut String, e: &Interface)
    ensures
        final(out)@ == old(out)@ + spec_iface_doc(*e),
{
    out.append("{\"name\":");
    push_quoted(out, e.name.as_str());
    match &e.mac {
        Some(m) => {
            out.append(",\"mac\":");
            push_quoted(out, m.as_str());
        },
        None => {},
    }
    match &e.sandbox {
        Some(sb) => {
            out.append(",\"sandbox\":");
            push_quoted(out, sb.as_str());
        },
        None => {},
    }
    out.append("}");
    assert(final(out)@ =~= old(out)@ + spec_iface_doc(*e));
}

#[verifier::loop_isolation(false)]
fn push_ips(out: &mut String, v: &Vec<Ip>)
    ensures
        final(out)@ == old(out)@ + spec_comma_join(spec_ips_docs(v@)),
{
    let mut k: usize = 0;
    while k < v.len()
        invariant
            k <= v@.len(),
            out@ == old(out)@ + spec_comma_join(spec_ips_docs(v@.take(k as int))),
        decreases v@.len() - k,
    {
        if k > 0 {
            push_char(out, ',');
        }
        push_ip(out, &v[k]);
        k = k + 1;
        proof {
            assert(spec_ips_docs(v@.take(k - 1)).push(spec_ip_doc(v@[k - 1])) =~= spec_ips_docs(
                v@.take(k as int),
            ));
            lemma_comma_join_push(spec_ips_docs(v@.take(k - 1)), spec_ip_doc(v@[k - 1]));
            assert(out@ =~= old(out)@ + spec_comma_join(spec_ips_docs(v@.take(k as int))));
        }
    }
    proof {
        assert(v@.take(v@.len() as int) =~= v@);
    }
}

#[verifier::loop_isolation(false)]
fn push_routes(out: &mut String, v: &Vec<Route>)
    ensures
        final(out)@ == old(out)@ + spec_comma_join(spec_routes_docs(v@)),
{
    let mut k: usize = 0;
    while k < v.len()
        invariant
            k <= v@.len(),
            out@ == old(out)@ + spec_comma_join(spec_routes_docs(v@.take(k as int))),
        decreases v@.len() - k,
    {
        if k > 0 {
            push_char(out, ',');
        }
        push_route(out, &v[k]);
        k = k + 1;
        proof {
            assert(spec_routes_docs(v@.take(k - 1)).push(spec_route_doc(v@[k - 1]))
                =~= spec_routes_docs(v@.take(k as int)));
            lemma_comma_join_push(spec_routes_docs(v@.take(k - 1)), spec_route_doc(v@[k - 1]));
            assert(out@ =~= old(out)@ + spec_comma_join(spec_routes_docs(v@.take(k as int))));
        }
    }
    proof {
        assert(v@.take(v@.len() as int) =~= v@);
    }
}

#[verifier::loop_isolation(false)]
fn push_ifaces(out: &mut String, v: &Vec<Interface>)
    ensures
        final(out)@ == old(out)@ + spec_comma_join(spec_ifaces_docs(v@)),
{
    let mut k: usize = 0;
    while k < v.len()
        invariant
            k <= v@.len(),
            out@ == old(out)@ + spec_comma_join(spec_ifaces_docs(v@.take(k as int))),
        decreases v@.len() - k,
    {
        if k > 0 {
            push_char(out, ',');
        }
        push_iface(out, &v[k]);
        k = k + 1;
        proof {
            assert(spec_ifaces_docs(v@.take(k - 1)).push(spec_iface_doc(v@[k - 1]))
                =~= spec_ifaces_docs(v@.take(k as int)));
            lemma_comma_join_push(spec_ifaces_docs(v@.take(k - 1)), spec_iface_doc(v@[k - 1]));
            assert(out@ =~= old(out)@ + spec_comma_join(spec_ifaces_docs(v@.take(k as int))));
        }
    }
    proof {
        assert(v@.take(v@.len() as int) =~= v@);
    }
}

#[verifier::loop_isolation(false)]
fn push_quoted_list(out: &mut String, v: &Vec<String>)
    ensures
        final(out)@ == old(out)@ + spec_comma_join(spec_quoted_docs(v@)),
{
    let mut k: usize = 0;
    while k < v.len()
        invariant
            k <= v@.len(),
            out@ == old(out)@ + spec_comma_join(spec_quoted_docs(v@.take(k as int))),
        decreases v@.len() - k,
    {
        if k > 0 {
            push_char(out, ',');
        }
        push_quoted(out, v[k].as_str());
        k = k + 1;
        proof {
            assert(spec_quoted_docs(v@.take(k - 1)).push(spec_quoted(v@[k - 1]@))
                =~= spec_quoted_docs(v@.take(k as int)));
            lemma_comma_join_push(spec_quoted_docs(v@.take(k - 1)), spec_quoted(v@[k - 1]@));
            assert(out@ =~= old(out)@ + spec_comma_join(spec_quoted_docs(v@.take(k as int))));
        }
    }
    proof {
        assert(v@.take(v@.len() as int) =~= v@);
    }
}

fn push_list_part(out: &mut String, sep: bool, label: &str, items: &Option<Vec<String>>)
    ensures
        final(out)@ == old(out)@ + spec_list_part(sep, label@, *items),
{
    proof {
        reveal(spec_list_part);
    }
    match items {
        Some(v) => {
            if sep {
                push_char(out, ',');
            }
            out.append(label);
            push_quoted_list(out, v);
            out.append("]");
            assert(final(out)@ =~= old(out)@ + spec_list_part(sep, label@, *items));
        },
        None => {},
    }
}

fn push_domain_part(out: &mut String, sep: bool, dom: &Option<String>)
    ensures
        final(out)@ == old(out)@ + spec_domain_part(sep, *dom),
{
    proof {
        reveal(spec_domain_part);
    }
    match dom {
        Some(x) => {
            if sep {
                push_char(out, ',');
            }
            out.append("\"domain\":");
            push_quoted(out, x.as_str());
            assert(final(out)@ =~= old(out)@ + spec_domain_part(sep, *dom));
        },
        None => {},
    }
}

fn push_dns(out: &mut String, d: &Dns)
    ensures
        final(out)@ == old(out)@ + spec_dns_doc(*d),
{
    push_char(out, '{');
    push_list_part(out, false, "\"nameservers\":[", &d.nameservers);
    push_domain_part(out, d.nameservers.is_some(), &d.domain);
    push_list_part(
        out,
        d.nameservers.is_some() || d.domain.is_some(),
        "\"search\":[",
        &d.search,
    );
    push_list_part(
        out,
        d.nameservers.is_some() || d.domain.is_some() || d.search.is_some(),
        "\"options\":[",
        &d.options,
    );
    push_char(out, '}');
    proof {
        assert(final(out)@ =~= old(out)@ + spec_dns_doc(*d));
    }
}

/// Renders the result document a finished operation reports.
pub fn success_doc(s: &Success) -> (r: String)
    ensures
        r@ == spec_success_doc(*s),
{
    let mut out = String::from_str("{\"cniVersion\":");
    push_quoted(&mut out, s.cni_version.as_str());
    match &s.interfaces {
        Some(v) => {
            out.append(",\"interfaces\":[");
            push_ifaces(&mut out, v);
            out.append("]");
        },
        None => {},
    }
    out.append(",\"ips\":[");
    push_ips(&mut out, &s.ips);
    out.append("],\"routes\":[");
    push_routes(&mut out, &s.routes);
    out.append("],\"dns\":");
    push_dns(&mut out, &s.dns);
    out.append("}");
    proof {
        assert(out@ =~= spec_success_doc(*s));
    }
    out
}

} // verus!
