//! The client's route management on macOS: reading the default gateway
//! from the output of `route -n get default`, and judging the outcome of
//! the `route add` and `route delete` commands.
use vstd::prelude::*;

use crate::text::{
    all_digits, append_decimal, chars_of, contains_str, contains_text, decimal, digit_char,
    digit_value, digits_value, is_digit, is_space, leading_space_len, lemma_decimal,
    lemma_lines_single, line_end, lines, spells, strip_cr, trailing_space_len, trim, trim_bounds,
};

verus! {

/// Why the default gateway could not be read.
#[derive(Debug, Clone, Copy, PartialEq, Eq, Structural)]
pub enum RouteError {
    /// No line of the output names a gateway.
    GatewayNotFound,
    /// The gateway line does not hold an IPv4 address.
    InvalidGateway,
}

// ---------------------------------------------------------------------------
// IPv4 addresses (`Ipv4Addr::from_str`)
// ---------------------------------------------------------------------------

/// Number of characters of `s` before its first `.` (or its length).
pub open spec fn piece_len(s: Seq<char>) -> nat
    decreases s.len(),
{
    if s.len() == 0 || s[0] == '.' {
        0
    } else {
        1 + piece_len(s.drop_first())
    }
}

pub proof fn lemma_piece_len_bound(s: Seq<char>)
    ensures
        piece_len(s) <= s.len(),
    decreases s.len(),
{
    if s.len() > 0 && s[0] != '.' {
        lemma_piece_len_bound(s.drop_first());
    }
}

/// The pieces of `s` between dots, empty ones included.
pub open spec fn dot_pieces(s: Seq<char>) -> Seq<Seq<char>>
    decreases s.len(),
{
    if piece_len(s) >= s.len() {
        seq![s]
    } else {
        proof {
            lemma_piece_len_bound(s);
        }
        seq![s.take(piece_len(s) as int)] + dot_pieces(s.skip(piece_len(s) + 1int))
    }
}

/// The value of a decimal octet: one to three digits, no leading zero,
/// at most 255.
pub open spec fn octet_value(p: Seq<char>) -> Option<u8> {
    if 1 <= p.len() <= 3 && all_digits(p) && (p.len() > 1 ==> p[0] != '0') && digits_value(p)
        <= 255 {
        Some(digits_value(p) as u8)
    } else {
        None
    }
}

/// The IPv4 address written by `s` in dotted decimal form.
pub open spec fn spec_parse_ipv4(s: Seq<char>) -> Option<Seq<u8>> {
    let ps = dot_pieces(s);
    if ps.len() == 4 && octet_value(ps[0]) is Some && octet_value(ps[1]) is Some && octet_value(
        ps[2],
    ) is Some && octet_value(ps[3]) is Some {
        Some(
            seq![
                octet_value(ps[0])->0,
                octet_value(ps[1])->0,
                octet_value(ps[2])->0,
                octet_value(ps[3])->0,
            ],
        )
    } else {
        None
    }
}

proof fn lemma_piece_scan(s: Seq<char>, j: int)
    requires
        0 <= j <= s.len(),
        forall|k: int| 0 <= k < j ==> #[trigger] s[k] != '.',
        j == s.len() || s[j] == '.',
    ensures
        piece_len(s) == j,
    decreases j,
{
    if j > 0 {
        lemma_piece_scan(s.drop_first(), j - 1);
    }
}

/// Finds the end of the piece of `cs[from..to]` that starts at `from`.
fn next_piece(cs: &Vec<char>, from: usize, to: usize) -> (e: usize)
    requires
        from <= to <= cs.len(),
    ensures
        from <= e <= to,
        e == to ==> dot_pieces(cs@.subrange(from as int, to as int)) == seq![
            cs@.subrange(from as int, to as int),
        ],
        e < to ==> dot_pieces(cs@.subrange(from as int, to as int)) == seq![
            cs@.subrange(from as int, e as int),
        ] + dot_pieces(cs@.subrange(e + 1, to as int)),
{
    let mut e = from;
    while e < to && cs[e] != '.'
        invariant
            from <= e <= to <= cs.len(),
            forall|k: int| from <= k < e ==> #[trigger] cs@[k] != '.',
        decreases to - e,
    {
        e = e + 1;
    }
    proof {
        let s = cs@.subrange(from as int, to as int);
        assert forall|k: int| 0 <= k < e - from implies #[trigger] s[k] != '.' by {
            assert(s[k] == cs@[from + k]);
        }
        if e < to {
            assert(s[e - from] == cs@[e as int]);
        }
        lemma_piece_scan(s, e - from);
        if e < to {
            assert(s.take(e - from) =~= cs@.subrange(from as int, e as int));
            assert(s.skip(e - from + 1) =~= cs@.subrange(e + 1, to as int));
        }
    }
    e
}

/// Reads `cs[from..to]` as an octet.
fn parse_octet(cs: &Vec<char>, from: usize, to: usize) -> (r: Option<u8>)
    requires
        from <= to <= cs.len(),
    ensures
        r == octet_value(cs@.subrange(from as int, to as int)),
{
    let ghost p = cs@.subrange(from as int, to as int);
    let len = to - from;
    if len < 1 || len > 3 {
        return None;
    }
    if len > 1 && cs[from] == '0' {
        assert(p[0] == '0');
        return None;
    }
    let mut v: u32 = 0;
    let mut i = from;
    while i < to
        invariant
            from <= i <= to <= cs.len(),
            to - from <= 3,
            p == cs@.subrange(from as int, to as int),
            all_digits(p.take(i - from)),
            v == digits_value(p.take(i - from)),
            v < 1000,
            i - from <= 3,
            i == from ==> v == 0,
            i - from <= 1 ==> v < 10,
            i - from <= 2 ==> v < 100,
        decreases to - i,
    {
        let c = cs[i];
        if !('0' <= c && c <= '9') {
            assert(!is_digit(p[i - from]));
            return None;
        }
        let d = c as u32 - '0' as u32;
        proof {
            let q = p.take(i - from + 1);
            assert(q.drop_last() =~= p.take(i - from));
            assert(q.last() == c);
            assert(digit_value(c) == d);
        }
        v = v * 10 + d;
        i = i + 1;
    }
    assert(p.take(i - from) =~= p);
    if v > 255 {
        return None;
    }
    Some(v as u8)
}

/// Reads `cs[from..to]` as a dotted decimal IPv4 address, as
/// `Ipv4Addr::from_str` does.
pub fn parse_ipv4_chars(cs: &Vec<char>, from: usize, to: usize) -> (r: Option<[u8; 4]>)
    requires
        from <= to <= cs.len(),
    ensures
        match r {
            Some(a) => spec_parse_ipv4(cs@.subrange(from as int, to as int)) == Some(a@),
            None => spec_parse_ipv4(cs@.subrange(from as int, to as int)) is None,
        },
{
    let ghost s = cs@.subrange(from as int, to as int);
    let e0 = next_piece(cs, from, to);
    if e0 == to {
        return None;
    }
    let e1 = next_piece(cs, e0 + 1, to);
    if e1 == to {
        return None;
    }
    let e2 = next_piece(cs, e1 + 1, to);
    if e2 == to {
        return None;
    }
    let e3 = next_piece(cs, e2 + 1, to);
    if e3 < to {
        assert(dot_pieces(s).len() > 4);
        return None;
    }
    assert(dot_pieces(s) =~= seq![
        cs@.subrange(from as int, e0 as int),
        cs@.subrange(e0 + 1, e1 as int),
        cs@.subrange(e1 + 1, e2 as int),
        cs@.subrange(e2 + 1, to as int),
    ]);
    let a = match parse_octet(cs, from, e0) {
        Some(v) => v,
        None => return None,
    };
    let b = match parse_octet(cs, e0 + 1, e1) {
        Some(v) => v,
        None => return None,
    };
    let c = match parse_octet(cs, e1 + 1, e2) {
        Some(v) => v,
        None => return None,
    };
    let d = match parse_octet(cs, e2 + 1, to) {
        Some(v) => v,
        None => return None,
    };
    let out: [u8; 4] = [a, b, c, d];
    assert(out@ =~= seq![a, b, c, d]);
    Some(out)
}

/// Reads `s` as a dotted decimal IPv4 address, as `Ipv4Addr::from_str` does.
pub fn parse_ipv4(s: &str) -> (r: Option<[u8; 4]>)
    ensures
        match r {
            Some(a) => spec_parse_ipv4(s@) == Some(a@),
            None => spec_parse_ipv4(s@) is None,
        },
{
    let cs = chars_of(s);
    assert(cs@.subrange(0, cs@.len() as int) =~= s@);
    parse_ipv4_chars(&cs, 0, cs.len())
}

/// The dotted decimal text of an IPv4 address, as `Ipv4Addr` displays it.
pub open spec fn spec_ipv4_text(a: Seq<u8>) -> Seq<char> {
    decimal(a[0] as nat) + seq!['.'] + decimal(a[1] as nat) + seq!['.'] + decimal(a[2] as nat)
        + seq!['.'] + decimal(a[3] as nat)
}

/// Writes an IPv4 address in dotted decimal form.
pub fn ipv4_text(a: [u8; 4]) -> (s: String)
    ensures
        s@ == spec_ipv4_text(a@),
{
    let mut out = String::new();
    append_decimal(&mut out, a[0] as u128);
    out.append(".");
    append_decimal(&mut out, a[1] as u128);
    out.append(".");
    append_decimal(&mut out, a[2] as u128);
    out.append(".");
    append_decimal(&mut out, a[3] as u128);
    proof {
        reveal_strlit(".");
    }
    assert(out@ =~= spec_ipv4_text(a@));
    out
}

/// A piece without dots ahead of a dot is split off whole.
proof fn lemma_dot_pieces_cons(p: Seq<char>, r: Seq<char>)
    requires
        forall|k: int| 0 <= k < p.len() ==> #[trigger] p[k] != '.',
    ensures
        dot_pieces(p + seq!['.'] + r) == seq![p] + dot_pieces(r),
{
    let s = p + seq!['.'] + r;
    assert forall|k: int| 0 <= k < p.len() implies #[trigger] s[k] != '.' by {
        assert(s[k] == p[k]);
    }
    lemma_piece_scan(s, p.len() as int);
    assert(s.take(p.len() as int) =~= p);
    assert(s.skip(p.len() + 1int) =~= r);
}

/// A piece without dots is its own only piece.
proof fn lemma_dot_pieces_single(p: Seq<char>)
    requires
        forall|k: int| 0 <= k < p.len() ==> #[trigger] p[k] != '.',
    ensures
        dot_pieces(p) == seq![p],
{
    lemma_piece_scan(p, p.len() as int);
}

/// The decimal form of an octet reads back as that octet.
proof fn lemma_octet_decimal(x: u8)
    ensures
        octet_value(decimal(x as nat)) == Some(x),
        forall|k: int| 0 <= k < decimal(x as nat).len() ==> #[trigger] decimal(x as nat)[k] != '.',
{
    let n = x as nat;
    lemma_decimal(n);
    let d = decimal(n);
    assert forall|k: int| 0 <= k < d.len() implies #[trigger] d[k] != '.' by {
        assert(is_digit(d[k]));
    }
    if n >= 10 {
        lemma_decimal(n / 10);
        assert(d =~= decimal(n / 10) + seq![digit_char(n % 10)]);
        if n / 10 >= 10 {
            assert(decimal(n / 10) =~= decimal(n / 100) + seq![digit_char((n / 10) % 10)]);
            assert(n / 100 < 10 && n / 100 >= 1);
            assert(decimal(n / 100) == seq![digit_char(n / 100)]);
            assert(d[0] == digit_char(n / 100));
        } else {
            assert(decimal(n / 10) == seq![digit_char(n / 10)]);
            assert(d[0] == digit_char(n / 10));
        }
    }
}

/// The dotted decimal text of an address reads back as that address.
pub proof fn lemma_ipv4_text_round_trip(a: Seq<u8>)
    requires
        a.len() == 4,
    ensures
        spec_parse_ipv4(spec_ipv4_text(a)) == Some(a),
{
    let d0 = decimal(a[0] as nat);
    let d1 = decimal(a[1] as nat);
    let d2 = decimal(a[2] as nat);
    let d3 = decimal(a[3] as nat);
    let dot = seq!['.'];
    let r1 = d2 + dot + d3;
    let r0 = d1 + dot + r1;
    let t = spec_ipv4_text(a);
    assert(t =~= d0 + dot + r0);
    assert(dot_pieces(t) == seq![d0, d1, d2, d3]) by {
        lemma_octet_decimal(a[0]);
        lemma_octet_decimal(a[1]);
        lemma_octet_decimal(a[2]);
        lemma_octet_decimal(a[3]);
        lemma_dot_pieces_single(d3);
        lemma_dot_pieces_cons(d2, d3);
        assert(dot_pieces(r1) =~= seq![d2, d3]);
        lemma_dot_pieces_cons(d1, r1);
        assert(dot_pieces(r0) =~= seq![d1, d2, d3]);
        lemma_dot_pieces_cons(d0, r0);
        assert(dot_pieces(t) =~= seq![d0, d1, d2, d3]);
    }
    assert(octet_value(d0) == Some(a[0])) by { lemma_octet_decimal(a[0]); }
    assert(octet_value(d1) == Some(a[1])) by { lemma_octet_decimal(a[1]); }
    assert(octet_value(d2) == Some(a[2])) by { lemma_octet_decimal(a[2]); }
    assert(octet_value(d3) == Some(a[3])) by { lemma_octet_decimal(a[3]); }
    assert(seq![a[0], a[1], a[2], a[3]] =~= a);
}

// ---------------------------------------------------------------------------
// The default gateway
// ---------------------------------------------------------------------------

/// The first trimmed line that starts with `gateway:` decides: the address
/// after it, or an error when that is no address.
pub open spec fn gateway_in_lines(ls: Seq<Seq<char>>) -> Result<Seq<u8>, RouteError>
    decreases ls.len(),
{
    if ls.len() == 0 {
        Err(RouteError::GatewayNotFound)
    } else {
        let t = trim(ls[0]);
        if t.len() >= 8 && t.take(8) == "gateway:"@ {
            match spec_parse_ipv4(trim(t.skip(8))) {
                Some(a) => Ok(a),
                None => Err(RouteError::InvalidGateway),
            }
        } else {
            gateway_in_lines(ls.drop_first())
        }
    }
}

/// The default gateway named in the output of `route -n get default`.
pub open spec fn spec_default_gateway(output: Seq<char>) -> Result<Seq<u8>, RouteError> {
    gateway_in_lines(lines(output))
}

/// The dotted decimal text of an address is made of digits and dots, and
/// starts and ends with a digit.
proof fn lemma_ipv4_text_chars(a: Seq<u8>)
    requires
        a.len() == 4,
    ensures
        spec_ipv4_text(a).len() > 0,
        forall|k: int|
            0 <= k < spec_ipv4_text(a).len() ==> is_digit(#[trigger] spec_ipv4_text(a)[k])
                || spec_ipv4_text(a)[k] == '.',
        is_digit(spec_ipv4_text(a)[0]),
        is_digit(spec_ipv4_text(a).last()),
{
    let d0 = decimal(a[0] as nat);
    let d1 = decimal(a[1] as nat);
    let d2 = decimal(a[2] as nat);
    let d3 = decimal(a[3] as nat);
    lemma_decimal(a[0] as nat);
    lemma_decimal(a[1] as nat);
    lemma_decimal(a[2] as nat);
    lemma_decimal(a[3] as nat);
    let dot = seq!['.'];
    let t = spec_ipv4_text(a);
    let p1 = d0 + dot;
    let p2 = p1 + d1;
    let p3 = p2 + dot;
    let p4 = p3 + d2;
    let p5 = p4 + dot;
    assert(t =~= p5 + d3);
    assert forall|k: int| 0 <= k < t.len() implies is_digit(#[trigger] t[k]) || t[k] == '.' by {
        if k < d0.len() {
            assert(t[k] == d0[k]);
        } else if k == d0.len() {
            assert(t[k] == '.');
        } else if k < p2.len() {
            assert(t[k] == d1[k - p1.len()]);
        } else if k == p2.len() {
            assert(t[k] == '.');
        } else if k < p4.len() {
            assert(t[k] == d2[k - p3.len()]);
        } else if k == p4.len() {
            assert(t[k] == '.');
        } else {
            assert(t[k] == d3[k - p5.len()]);
        }
    }
    assert(t[0] == d0[0]);
    assert(t.last() == d3.last());
}

/// The output of `route -n get default` whose line names the gateway by
/// its dotted decimal text reads back as that gateway.
pub proof fn lemma_gateway_line_read_back(a: Seq<u8>)
    requires
        a.len() == 4,
    ensures
        spec_default_gateway("gateway: "@ + spec_ipv4_text(a)) == Ok::<Seq<u8>, RouteError>(a),
{
    reveal_strlit("gateway: ");
    reveal_strlit("gateway:");
    let t = spec_ipv4_text(a);
    lemma_ipv4_text_chars(a);
    lemma_ipv4_text_round_trip(a);
    let line = "gateway: "@ + t;
    assert forall|k: int| 0 <= k < line.len() implies #[trigger] line[k] != '\n' by {
        if k >= 9 {
            assert(line[k] == t[k - 9]);
        }
    }
    lemma_lines_single(line);
    assert(!is_space(line[0]));
    assert(leading_space_len(line) == 0);
    assert(line.last() == t.last());
    assert(!is_space(line.last()));
    assert(line.skip(0) =~= line);
    assert(trailing_space_len(line) == 0);
    assert(trim(line) =~= line);
    assert(line.take(8) =~= "gateway:"@);
    let rest = line.skip(8);
    assert(rest =~= seq![' '] + t);
    assert(is_space(rest[0]));
    assert(rest.drop_first() =~= t);
    assert(!is_space(t[0]));
    assert(leading_space_len(t) == 0);
    assert(leading_space_len(rest) == 1);
    assert(rest.skip(1) =~= t);
    assert(t.skip(0) =~= t);
    assert(trailing_space_len(t) == 0);
    assert(trim(rest) =~= t);
    assert(lines(line) == seq![line]);
    assert(gateway_in_lines(seq![line]) == Ok::<Seq<u8>, RouteError>(a)) by {
        assert(seq![line][0] == line);
        assert(seq![line].drop_first() =~= Seq::<Seq<char>>::empty());
    }
}

/// Reads the default gateway from the output of `route -n get default`.
pub fn default_gateway(output: &str) -> (r: Result<[u8; 4], RouteError>)
    ensures
        match r {
            Ok(a) => spec_default_gateway(output@) == Ok::<Seq<u8>, RouteError>(a@),
            Err(e) => spec_default_gateway(output@) == Err::<Seq<u8>, RouteError>(e),
        },
{
    proof {
        reveal_strlit("gateway:");
    }
    let cs = chars_of(output);
    let n = cs.len();
    let mut pos: usize = 0;
    assert(cs@.skip(0) =~= cs@);
    while pos < n
        invariant
            cs@ == output@,
            n == cs.len(),
            0 <= pos <= n,
            spec_default_gateway(output@) == gateway_in_lines(lines(cs@.skip(pos as int))),
        decreases n - pos,
    {
        let ghost rest = cs@.skip(pos as int);
        let e = line_end(&cs, pos);
        let line_to = if e < n && e > pos && cs[e - 1] == '\r' {
            e - 1
        } else {
            e
        };
        proof {
            if e < n {
                assert(lines(rest) == seq![strip_cr(rest.take(e - pos))] + lines(
                    rest.skip(e - pos + 1),
                ));
                assert(rest.take(e - pos) =~= cs@.subrange(pos as int, e as int));
                assert(strip_cr(rest.take(e - pos)) =~= cs@.subrange(pos as int, line_to as int));
                assert(rest.skip(e - pos + 1) =~= cs@.skip(e + 1));
            } else {
                assert(lines(rest) == seq![rest]);
                assert(rest =~= cs@.subrange(pos as int, line_to as int));
            }
        }
        let (a, b) = trim_bounds(&cs, pos, line_to);
        if b - a >= 8 && spells(&cs, a, a + 8, "gateway:") {
            let (va, vb) = trim_bounds(&cs, a + 8, b);
            proof {
                let t = cs@.subrange(a as int, b as int);
                assert(t.take(8) =~= cs@.subrange(a as int, a + 8));
                assert(t.skip(8) =~= cs@.subrange(a + 8, b as int));
            }
            match parse_ipv4_chars(&cs, va, vb) {
                Some(addr) => return Ok(addr),
                None => return Err(RouteError::InvalidGateway),
            }
        }
        proof {
            let t = cs@.subrange(a as int, b as int);
            if t.len() >= 8 {
                assert(t.take(8) =~= cs@.subrange(a as int, a + 8));
            }
        }
        if e == n {
            proof {
                assert(lines(rest).drop_first() =~= Seq::<Seq<char>>::empty());
                assert(lines(cs@.skip(n as int)) =~= Seq::<Seq<char>>::empty()) by {
                    assert(cs@.skip(n as int) =~= Seq::<char>::empty());
                }
            }
            pos = n;
        } else {
            proof {
                assert(lines(rest).drop_first() =~= lines(cs@.skip(e + 1)));
            }
            pos = e + 1;
        }
    }
    proof {
        assert(cs@.skip(pos as int) =~= Seq::<char>::empty());
    }
    Err(RouteError::GatewayNotFound)
}

// ---------------------------------------------------------------------------
// The split default routes
// ---------------------------------------------------------------------------

/// The arguments of one `route` command, as text.
pub open spec fn args_view(v: Vec<String>) -> Seq<Seq<char>> {
    v@.map_values(|a: String| a@)
}

/// The argument lists of several `route` commands, as text.
pub open spec fn commands_view(v: Vec<Vec<String>>) -> Seq<Seq<Seq<char>>> {
    v@.map_values(|c: Vec<String>| args_view(c))
}

/// The commands that install the split default routes, in order: a host
/// route to the server through the current gateway, then the two halves of
/// the address space through the tunnel's gateway.
pub open spec fn spec_install_commands(server: Seq<u8>, gateway: Seq<u8>, vpn_gateway: Seq<u8>) -> Seq<
    Seq<Seq<char>>,
> {
    seq![
        seq!["-n"@, "add"@, "-host"@, spec_ipv4_text(server), spec_ipv4_text(gateway)],
        seq!["-n"@, "add"@, "-net"@, "0.0.0.0/1"@, spec_ipv4_text(vpn_gateway)],
        seq!["-n"@, "add"@, "-net"@, "128.0.0.0/1"@, spec_ipv4_text(vpn_gateway)],
    ]
}

/// The commands that remove the split default routes, in order.
pub open spec fn spec_cleanup_commands(server: Seq<u8>) -> Seq<Seq<Seq<char>>> {
    seq![
        seq!["-n"@, "delete"@, "-net"@, "0.0.0.0/1"@],
        seq!["-n"@, "delete"@, "-net"@, "128.0.0.0/1"@],
        seq!["-n"@, "delete"@, "-host"@, spec_ipv4_text(server)],
    ]
}

/// The arguments of the `route` commands that install the split default
/// routes.
pub fn install_commands(server: [u8; 4], gateway: [u8; 4], vpn_gateway: [u8; 4]) -> (c: Vec<
    Vec<String>,
>)
    ensures
        commands_view(c) == spec_install_commands(server@, gateway@, vpn_gateway@),
{
    let mut host: Vec<String> = Vec::new();
    host.push("-n".to_owned());
    host.push("add".to_owned());
    host.push("-host".to_owned());
    host.push(ipv4_text(server));
    host.push(ipv4_text(gateway));
    let mut low: Vec<String> = Vec::new();
    low.push("-n".to_owned());
    low.push("add".to_owned());
    low.push("-net".to_owned());
    low.push("0.0.0.0/1".to_owned());
    low.push(ipv4_text(vpn_gateway));
    let mut high: Vec<String> = Vec::new();
    high.push("-n".to_owned());
    high.push("add".to_owned());
    high.push("-net".to_owned());
    high.push("128.0.0.0/1".to_owned());
    high.push(ipv4_text(vpn_gateway));
    assert(args_view(host) =~= spec_install_commands(server@, gateway@, vpn_gateway@)[0]);
    assert(args_view(low) =~= spec_install_commands(server@, gateway@, vpn_gateway@)[1]);
    assert(args_view(high) =~= spec_install_commands(server@, gateway@, vpn_gateway@)[2]);
    let mut c: Vec<Vec<String>> = Vec::new();
    c.push(host);
    c.push(low);
    c.push(high);
    assert(commands_view(c) =~= spec_install_commands(server@, gateway@, vpn_gateway@));
    c
}

/// The arguments of the `route` commands that remove the split default
/// routes.
pub fn cleanup_commands(server: [u8; 4]) -> (c: Vec<Vec<String>>)
    ensures
        commands_view(c) == spec_cleanup_commands(server@),
{
    let mut low: Vec<String> = Vec::new();
    low.push("-n".to_owned());
    low.push("delete".to_owned());
    low.push("-net".to_owned());
    low.push("0.0.0.0/1".to_owned());
    let mut high: Vec<String> = Vec::new();
    high.push("-n".to_owned());
    high.push("delete".to_owned());
    high.push("-net".to_owned());
    high.push("128.0.0.0/1".to_owned());
    let mut host: Vec<String> = Vec::new();
    host.push("-n".to_owned());
    host.push("delete".to_owned());
    host.push("-host".to_owned());
    host.push(ipv4_text(server));
    assert(args_view(low) =~= spec_cleanup_commands(server@)[0]);
    assert(args_view(high) =~= spec_cleanup_commands(server@)[1]);
    assert(args_view(host) =~= spec_cleanup_commands(server@)[2]);
    let mut c: Vec<Vec<String>> = Vec::new();
    c.push(low);
    c.push(high);
    c.push(host);
    assert(commands_view(c) =~= spec_cleanup_commands(server@));
    c
}

/// Whether the split default routes for a server are in place; they are
/// removed at most once.
pub struct RouteState {
    server_ip: [u8; 4],
    installed: bool,
}

impl RouteState {
    /// The server the host route leads to.
    pub closed spec fn server(&self) -> Seq<u8> {
        self.server_ip@
    }

    /// Whether the routes are in place.
    pub closed spec fn is_installed(&self) -> bool {
        self.installed
    }

    /// The state once the routes for `server_ip` were installed.
    pub fn installed_for(server_ip: [u8; 4]) -> (s: Self)
        ensures
            s.server() == server_ip@,
            s.is_installed(),
    {
        RouteState { server_ip, installed: true }
    }

    /// The commands to run to remove the routes, when they are in place;
    /// afterwards they count as removed.
    pub fn take_cleanup(&mut self) -> (r: Option<Vec<Vec<String>>>)
        ensures
            old(self).is_installed() ==> (r matches Some(c) && commands_view(c)
                == spec_cleanup_commands(old(self).server())),
            !old(self).is_installed() ==> r is None,
            !final(self).is_installed(),
            final(self).server() == old(self).server(),
    {
        if !self.installed {
            return None;
        }
        self.installed = false;
        Some(cleanup_commands(self.server_ip))
    }
}

// ---------------------------------------------------------------------------
// Route commands
// ---------------------------------------------------------------------------

/// How a `route add` command ended.
#[derive(Debug, Clone, Copy, PartialEq, Eq, Structural)]
pub enum RouteAddOutcome {
    /// The route was added.
    Added,
    /// The route was there already; this counts as success.
    AlreadyPresent,
    /// The command failed.
    Failed,
}

/// How a `route delete` command ended.
#[derive(Debug, Clone, Copy, PartialEq, Eq, Structural)]
pub enum RouteDeleteOutcome {
    /// The route was removed.
    Deleted,
    /// There was no such route; nothing to report.
    NotPresent,
    /// The command failed.
    Failed,
}

/// Judges a `route add` command from its exit status and error output.
pub fn route_add_outcome(success: bool, stderr: &str) -> (o: RouteAddOutcome)
    ensures
        o == (if success {
            RouteAddOutcome::Added
        } else if contains_text(stderr@, "File exists"@) {
            RouteAddOutcome::AlreadyPresent
        } else {
            RouteAddOutcome::Failed
        }),
{
    if success {
        return RouteAddOutcome::Added;
    }
    if contains_str(stderr, "File exists") {
        return RouteAddOutcome::AlreadyPresent;
    }
    RouteAddOutcome::Failed
}

/// Judges a `route delete` command from its exit status and error output.
pub fn route_delete_outcome(success: bool, stderr: &str) -> (o: RouteDeleteOutcome)
    ensures
        o == (if success {
            RouteDeleteOutcome::Deleted
        } else if contains_text(stderr@, "not in table"@) {
            RouteDeleteOutcome::NotPresent
        } else {
            RouteDeleteOutcome::Failed
        }),
{
    if success {
        return RouteDeleteOutcome::Deleted;
    }
    if contains_str(stderr, "not in table") {
        return RouteDeleteOutcome::NotPresent;
    }
    RouteDeleteOutcome::Failed
}

} // verus!
