//! The authentication exchange: the client sends the magic, its token and an
//! optional benchmark line; the server parses the request, compares the
//! token and answers `OK` or `ERR`.
use vstd::prelude::*;
use vstd::string::*;
use vstd::utf8::*;

use crate::text::{
    ascii_bytes, chars_of, decimal, is_space, lemma_ascii_concat, lemma_decimal,
    lemma_ascii_bytes_concat, lemma_encode_ascii, lemma_encode_concat, lemma_lines_first, lemma_lines_single,
    lemma_parse_decimal_u64, lemma_parse_decimal_usize, lemma_words_single,
    lemma_words_word_then_space, line_end, lines, next_word, no_newline, no_space, parse_u64,
    parse_u64_chars, parse_usize, parse_usize_chars, push_ascii, push_decimal, spells,
    same_text, strip_cr, utf8_text, words,
};
use crate::{AUTH_MAGIC, AUTH_OK, err_bytes, magic_bytes, ok_bytes};

verus! {

/// Largest authentication request or reply read from a stream.
pub const MAX_AUTH_BYTES: usize = 1024;

/// Direction and transport used by a benchmark session.
#[derive(Debug, Clone, Copy, PartialEq, Eq, Structural)]
pub enum BenchDirection {
    Upload,
    Download,
    StreamUpload,
    StreamDownload,
    StreamPacketUpload,
    StreamPacketDownload,
}

/// What an authenticated connection is used for.
#[derive(Debug, Clone, Copy, PartialEq, Eq, Structural)]
pub enum AuthMode {
    Vpn,
    Bench {
        direction: BenchDirection,
        duration_secs: u64,
        payload_bytes: usize,
        target_mbps: Option<u64>,
    },
}

/// Why an authentication request or reply was refused.
#[derive(Debug, Clone, Copy, PartialEq, Eq, Structural)]
pub enum AuthError {
    /// The request does not start with the magic.
    InvalidMagic,
    /// The request is not UTF-8 text.
    NotUtf8,
    /// The request does not end with a line feed.
    MissingNewline,
    /// The request holds no token line.
    MissingToken,
    /// The request holds more than two lines.
    TooManyLines,
    /// The second line is not a `bench` line.
    UnknownMode,
    /// The benchmark direction is missing or unknown.
    InvalidDirection,
    /// The benchmark duration is missing.
    MissingDuration,
    /// The benchmark duration is not a number.
    InvalidDuration,
    /// The benchmark payload size is missing.
    MissingPayloadSize,
    /// The benchmark payload size is not a number.
    InvalidPayloadSize,
    /// The benchmark target rate is not a number.
    InvalidTargetMbps,
    /// The `bench` line holds more than five fields.
    TooManyFields,
    /// The benchmark duration is zero.
    ZeroDuration,
    /// The benchmark payload size is outside 64..=1452 bytes.
    PayloadSizeOutOfRange,
    /// The server holds another token.
    InvalidToken,
    /// The server refused the client's token.
    Rejected,
}

// ---------------------------------------------------------------------------
// Benchmark directions
// ---------------------------------------------------------------------------

/// The wire name of a benchmark direction.
pub open spec fn direction_name(d: BenchDirection) -> Seq<char> {
    match d {
        BenchDirection::Upload => "upload"@,
        BenchDirection::Download => "download"@,
        BenchDirection::StreamUpload => "stream-upload"@,
        BenchDirection::StreamDownload => "stream-download"@,
        BenchDirection::StreamPacketUpload => "stream-packet-upload"@,
        BenchDirection::StreamPacketDownload => "stream-packet-download"@,
    }
}

/// The benchmark direction with wire name `w`, if any.
pub open spec fn direction_from_name(w: Seq<char>) -> Option<BenchDirection> {
    if w == "upload"@ {
        Some(BenchDirection::Upload)
    } else if w == "download"@ {
        Some(BenchDirection::Download)
    } else if w == "stream-upload"@ {
        Some(BenchDirection::StreamUpload)
    } else if w == "stream-download"@ {
        Some(BenchDirection::StreamDownload)
    } else if w == "stream-packet-upload"@ {
        Some(BenchDirection::StreamPacketUpload)
    } else if w == "stream-packet-download"@ {
        Some(BenchDirection::StreamPacketDownload)
    } else {
        None
    }
}

impl BenchDirection {
    /// The wire name of this direction.
    pub fn as_str(self) -> (s: &'static str)
        ensures
            s@ == direction_name(self),
    {
        match self {
            BenchDirection::Upload => "upload",
            BenchDirection::Download => "download",
            BenchDirection::StreamUpload => "stream-upload",
            BenchDirection::StreamDownload => "stream-download",
            BenchDirection::StreamPacketUpload => "stream-packet-upload",
            BenchDirection::StreamPacketDownload => "stream-packet-download",
        }
    }

    /// Whether this benchmark runs over QUIC datagrams (rather than a stream).
    pub fn uses_datagrams(self) -> (b: bool)
        ensures
            b <==> (self == BenchDirection::Upload || self == BenchDirection::Download),
    {
        matches!(self, BenchDirection::Upload | BenchDirection::Download)
    }
}

/// Wire names are plain ASCII words, and each names one direction.
pub proof fn lemma_direction_name(d: BenchDirection)
    ensures
        direction_from_name(direction_name(d)) == Some(d),
        direction_name(d).len() > 0,
        is_ascii_chars(direction_name(d)),
        forall|i: int|
            0 <= i < direction_name(d).len() ==> !is_space(#[trigger] direction_name(d)[i]),
        forall|i: int| 0 <= i < direction_name(d).len() ==> #[trigger] direction_name(d)[i] != '\n',
{
    reveal_strlit("upload");
    reveal_strlit("download");
    reveal_strlit("stream-upload");
    reveal_strlit("stream-download");
    reveal_strlit("stream-packet-upload");
    reveal_strlit("stream-packet-download");
    assert("upload"@.len() == 6);
    assert("download"@.len() == 8);
    assert("stream-upload"@.len() == 13);
    assert("stream-download"@.len() == 15);
    assert("stream-packet-upload"@.len() == 20);
    assert("stream-packet-download"@.len() == 22);
}

/// The direction whose wire name is `cs[from..to]`, if any.
fn direction_from_chars(cs: &Vec<char>, from: usize, to: usize) -> (r: Option<BenchDirection>)
    requires
        from <= to <= cs.len(),
    ensures
        r == direction_from_name(cs@.subrange(from as int, to as int)),
{
    if spells(cs, from, to, "upload") {
        Some(BenchDirection::Upload)
    } else if spells(cs, from, to, "download") {
        Some(BenchDirection::Download)
    } else if spells(cs, from, to, "stream-upload") {
        Some(BenchDirection::StreamUpload)
    } else if spells(cs, from, to, "stream-download") {
        Some(BenchDirection::StreamDownload)
    } else if spells(cs, from, to, "stream-packet-upload") {
        Some(BenchDirection::StreamPacketUpload)
    } else if spells(cs, from, to, "stream-packet-download") {
        Some(BenchDirection::StreamPacketDownload)
    } else {
        None
    }
}

// ---------------------------------------------------------------------------
// The request grammar
// ---------------------------------------------------------------------------

/// What the server makes of a benchmark line.
pub open spec fn spec_parse_mode(line: Seq<char>) -> Result<AuthMode, AuthError> {
    let w = words(line);
    if w.len() == 0 || w[0] != "bench"@ {
        Err(AuthError::UnknownMode)
    } else if w.len() < 2 || direction_from_name(w[1]) is None {
        Err(AuthError::InvalidDirection)
    } else if w.len() < 3 {
        Err(AuthError::MissingDuration)
    } else if parse_u64(w[2]) is None {
        Err(AuthError::InvalidDuration)
    } else if w.len() < 4 {
        Err(AuthError::MissingPayloadSize)
    } else if parse_usize(w[3]) is None {
        Err(AuthError::InvalidPayloadSize)
    } else if w.len() >= 5 && parse_u64(w[4]) is None {
        Err(AuthError::InvalidTargetMbps)
    } else if w.len() >= 6 {
        Err(AuthError::TooManyFields)
    } else if parse_u64(w[2])->0 == 0 {
        Err(AuthError::ZeroDuration)
    } else if !(64 <= parse_usize(w[3])->0 <= 1452) {
        Err(AuthError::PayloadSizeOutOfRange)
    } else {
        Ok(
            AuthMode::Bench {
                direction: direction_from_name(w[1])->0,
                duration_secs: parse_u64(w[2])->0,
                payload_bytes: parse_usize(w[3])->0,
                target_mbps: if w.len() >= 5 && parse_u64(w[4])->0 != 0 {
                    Some(parse_u64(w[4])->0)
                } else {
                    None
                },
            },
        )
    }
}

/// What the server makes of a whole request: the token and the mode.
pub open spec fn spec_parse_request(req: Seq<u8>) -> Result<(Seq<char>, AuthMode), AuthError> {
    if !(req.len() >= 6 && req.take(6) == magic_bytes()) {
        Err(AuthError::InvalidMagic)
    } else if !valid_utf8(req.skip(6)) {
        Err(AuthError::NotUtf8)
    } else {
        let text = decode_utf8(req.skip(6));
        if text.len() == 0 || text.last() != '\n' {
            Err(AuthError::MissingNewline)
        } else {
            let ls = lines(text.drop_last());
            if ls.len() == 0 {
                Err(AuthError::MissingToken)
            } else if ls.len() == 1 {
                Ok((ls[0], AuthMode::Vpn))
            } else {
                match spec_parse_mode(ls[1]) {
                    Err(e) => Err(e),
                    Ok(m) => if ls.len() >= 3 {
                        Err(AuthError::TooManyLines)
                    } else {
                        Ok((ls[0], m))
                    },
                }
            }
        }
    }
}

/// The token and mode of a parse result, as sequences.
pub open spec fn parsed(r: Result<(&str, AuthMode), AuthError>) -> Result<
    (Seq<char>, AuthMode),
    AuthError,
> {
    match r {
        Ok((t, m)) => Ok((t@, m)),
        Err(e) => Err(e),
    }
}

/// Reads a `bench <direction> <secs> <payload> [<target mbps>]` line.
pub fn parse_mode(line: &str) -> (r: Result<AuthMode, AuthError>)
    ensures
        r == spec_parse_mode(line@),
{
    let cs = chars_of(line);
    let ghost w = words(line@);
    assert(cs@.skip(0) =~= cs@);
    let (a1, b1) = match next_word(&cs, 0) {
        None => return Err(AuthError::UnknownMode),
        Some(x) => x,
    };
    if !spells(&cs, a1, b1, "bench") {
        return Err(AuthError::UnknownMode);
    }
    let (a2, b2) = match next_word(&cs, b1) {
        None => return Err(AuthError::InvalidDirection),
        Some(x) => x,
    };
    assert(w[1] == cs@.subrange(a2 as int, b2 as int));
    let direction = match direction_from_chars(&cs, a2, b2) {
        None => return Err(AuthError::InvalidDirection),
        Some(d) => d,
    };
    let (a3, b3) = match next_word(&cs, b2) {
        None => return Err(AuthError::MissingDuration),
        Some(x) => x,
    };
    assert(w[2] == cs@.subrange(a3 as int, b3 as int));
    let duration_secs = match parse_u64_chars(&cs, a3, b3) {
        None => return Err(AuthError::InvalidDuration),
        Some(v) => v,
    };
    let (a4, b4) = match next_word(&cs, b3) {
        None => return Err(AuthError::MissingPayloadSize),
        Some(x) => x,
    };
    assert(w[3] == cs@.subrange(a4 as int, b4 as int));
    let payload_bytes = match parse_usize_chars(&cs, a4, b4) {
        None => return Err(AuthError::InvalidPayloadSize),
        Some(v) => v,
    };
    let mut target_mbps: Option<u64> = None;
    let mut rest = b4;
    match next_word(&cs, b4) {
        None => {},
        Some((a5, b5)) => {
            assert(w[4] == cs@.subrange(a5 as int, b5 as int));
            match parse_u64_chars(&cs, a5, b5) {
                None => return Err(AuthError::InvalidTargetMbps),
                Some(v) => {
                    if v != 0 {
                        target_mbps = Some(v);
                    }
                },
            }
            rest = b5;
            if next_word(&cs, b5).is_some() {
                assert(w.len() >= 6);
                return Err(AuthError::TooManyFields);
            }
        },
    }
    if duration_secs == 0 {
        return Err(AuthError::ZeroDuration);
    }
    if !(64 <= payload_bytes && payload_bytes <= 1452) {
        return Err(AuthError::PayloadSizeOutOfRange);
    }
    Ok(AuthMode::Bench { direction, duration_secs, payload_bytes, target_mbps })
}

/// Whether `request` starts with the authentication magic.
fn has_magic(request: &[u8]) -> (r: bool)
    ensures
        r == (request@.len() >= 6 && request@.take(6) == magic_bytes()),
{
    if request.len() < 6 {
        return false;
    }
    let magic = AUTH_MAGIC;
    assert(magic@ =~= magic_bytes());
    let mut i: usize = 0;
    while i < 6
        invariant
            request@.len() >= 6,
            magic@ == magic_bytes(),
            0 <= i <= 6,
            forall|k: int| 0 <= k < i ==> request@[k] == magic_bytes()[k],
        decreases 6 - i,
    {
        if request[i] != magic[i] {
            assert(request@.take(6)[i as int] != magic_bytes()[i as int]);
            return false;
        }
        i = i + 1;
    }
    assert(request@.take(6) =~= magic_bytes());
    true
}

/// Splits an authentication request into the client's token and the
/// requested mode: the magic, then UTF-8 text ending in a line feed whose
/// first line is the token and whose optional second line is a `bench` line.
pub fn parse_request(request: &[u8]) -> (r: Result<(&str, AuthMode), AuthError>)
    ensures
        parsed(r) == spec_parse_request(request@),
{
    if !has_magic(request) {
        return Err(AuthError::InvalidMagic);
    }
    let (_, rest) = request.split_at(6);
    assert(rest@ =~= request@.skip(6));
    let text = match utf8_text(rest) {
        None => return Err(AuthError::NotUtf8),
        Some(t) => t,
    };
    let cs = chars_of(text);
    let n = cs.len();
    if n == 0 || cs[n - 1] != '\n' {
        return Err(AuthError::MissingNewline);
    }
    let payload = text.substring_char(0, n - 1);
    let pcs = chars_of(payload);
    let ghost p = pcs@;
    assert(p =~= text@.drop_last());
    let len = pcs.len();
    if len == 0 {
        assert(lines(p) =~= Seq::<Seq<char>>::empty());
        return Err(AuthError::MissingToken);
    }
    assert(p.skip(0) =~= p);
    let e1 = line_end(&pcs, 0);
    if e1 == len {
        assert(lines(p) =~= seq![p]);
        return Ok((payload, AuthMode::Vpn));
    }
    let tok_end = if e1 > 0 && pcs[e1 - 1] == '\r' {
        e1 - 1
    } else {
        e1
    };
    let token = payload.substring_char(0, tok_end);
    assert(token@ =~= strip_cr(p.take(e1 as int)));
    let s2 = e1 + 1;
    let ghost tail = p.skip(s2 as int);
    assert(lines(p) =~= seq![strip_cr(p.take(e1 as int))] + lines(tail));
    if s2 == len {
        assert(tail =~= Seq::<char>::empty());
        assert(lines(p) =~= seq![token@]);
        return Ok((token, AuthMode::Vpn));
    }
    let e2 = line_end(&pcs, s2);
    let l2_end = if e2 < len && e2 > s2 && pcs[e2 - 1] == '\r' {
        e2 - 1
    } else {
        e2
    };
    let line2 = payload.substring_char(s2, l2_end);
    proof {
        if e2 < len {
            assert(lines(tail) =~= seq![strip_cr(tail.take(e2 - s2))] + lines(
                tail.skip(e2 - s2 + 1),
            ));
            assert(tail.take(e2 - s2) =~= p.subrange(s2 as int, e2 as int));
            assert(line2@ =~= strip_cr(tail.take(e2 - s2)));
            assert(tail.skip(e2 - s2 + 1) =~= p.skip(e2 + 1));
        } else {
            assert(lines(tail) =~= seq![tail]);
            assert(line2@ =~= tail);
        }
        assert(lines(p)[1] == line2@);
        assert(lines(p)[0] == token@);
    }
    let mode = match parse_mode(line2) {
        Err(e) => return Err(e),
        Ok(m) => m,
    };
    if e2 < len && e2 + 1 < len {
        proof {
            let t3 = p.skip(e2 + 1);
            assert(t3.len() > 0);
            assert(lines(t3).len() > 0);
        }
        return Err(AuthError::TooManyLines);
    }
    proof {
        if e2 < len {
            assert(p.skip(e2 + 1) =~= Seq::<char>::empty());
        }
    }
    Ok((token, mode))
}

// ---------------------------------------------------------------------------
// The client's side
// ---------------------------------------------------------------------------

/// The target rate a benchmark line carries (zero for unlimited).
pub open spec fn target_value(t: Option<u64>) -> nat {
    match t {
        Some(v) => v as nat,
        None => 0,
    }
}

/// The benchmark line for a mode, without its line feed.
pub open spec fn bench_fields(
    direction: BenchDirection,
    duration_secs: u64,
    payload_bytes: usize,
    target_mbps: Option<u64>,
) -> Seq<char> {
    "bench"@ + seq![' '] + direction_name(direction) + seq![' '] + decimal(duration_secs as nat)
        + seq![' '] + decimal(payload_bytes as nat) + seq![' '] + decimal(target_value(target_mbps))
}

/// The line a client adds after its token for `mode` (nothing for the VPN).
pub open spec fn mode_line(mode: AuthMode) -> Seq<char> {
    match mode {
        AuthMode::Vpn => seq![],
        AuthMode::Bench { direction, duration_secs, payload_bytes, target_mbps } => bench_fields(
            direction,
            duration_secs,
            payload_bytes,
            target_mbps,
        ) + seq!['\n'],
    }
}

/// The request a client sends: magic, token, line feed, then the mode line.
pub open spec fn spec_auth_request(token: Seq<char>, mode: AuthMode) -> Seq<u8> {
    magic_bytes() + encode_utf8(token) + seq![0x0au8] + ascii_bytes(mode_line(mode))
}

/// The bytes of `bench_fields`, which are ASCII.
proof fn lemma_bench_fields_ascii(
    direction: BenchDirection,
    duration_secs: u64,
    payload_bytes: usize,
    target_mbps: Option<u64>,
)
    ensures
        is_ascii_chars(bench_fields(direction, duration_secs, payload_bytes, target_mbps)),
        is_ascii_chars(mode_line(
            AuthMode::Bench { direction, duration_secs, payload_bytes, target_mbps },
        )),
{
    reveal_strlit("bench");
    lemma_direction_name(direction);
    lemma_decimal(duration_secs as nat);
    lemma_decimal(payload_bytes as nat);
    lemma_decimal(target_value(target_mbps));
    let sp = seq![' '];
    assert(is_ascii_chars(sp));
    assert(is_ascii_chars(seq!['\n']));
    let f1 = "bench"@ + sp;
    lemma_ascii_concat("bench"@, sp);
    let f2 = f1 + direction_name(direction);
    lemma_ascii_concat(f1, direction_name(direction));
    let f3 = f2 + sp;
    lemma_ascii_concat(f2, sp);
    let f4 = f3 + decimal(duration_secs as nat);
    lemma_ascii_concat(f3, decimal(duration_secs as nat));
    let f5 = f4 + sp;
    lemma_ascii_concat(f4, sp);
    let f6 = f5 + decimal(payload_bytes as nat);
    lemma_ascii_concat(f5, decimal(payload_bytes as nat));
    let f7 = f6 + sp;
    lemma_ascii_concat(f6, sp);
    let f8 = f7 + decimal(target_value(target_mbps));
    lemma_ascii_concat(f7, decimal(target_value(target_mbps)));
    lemma_ascii_concat(f8, seq!['\n']);
}

/// Builds the request a client sends to authenticate with `token` for
/// `mode`.
pub fn encode_auth_request(token: &str, mode: AuthMode) -> (req: Vec<u8>)
    ensures
        req@ == spec_auth_request(token@, mode),
{
    let mut req: Vec<u8> = Vec::new();
    let magic = AUTH_MAGIC;
    assert(magic@ =~= magic_bytes());
    let mut i: usize = 0;
    while i < 6
        invariant
            0 <= i <= 6,
            magic@ == magic_bytes(),
            req@ == magic_bytes().take(i as int),
        decreases 6 - i,
    {
        req.push(magic[i]);
        assert(magic_bytes().take(i + 1) =~= magic_bytes().take(i as int).push(magic[i as int]));
        i = i + 1;
    }
    assert(magic_bytes().take(6) =~= magic_bytes());
    let bytes = token.as_bytes();
    let ghost head = req@;
    let mut j: usize = 0;
    while j < bytes.len()
        invariant
            0 <= j <= bytes@.len(),
            bytes@ == encode_utf8(token@),
            req@ == head + bytes@.take(j as int),
        decreases bytes@.len() - j,
    {
        req.push(bytes[j]);
        assert(bytes@.take(j + 1) =~= bytes@.take(j as int).push(bytes@[j as int]));
        j = j + 1;
    }
    assert(bytes@.take(j as int) =~= bytes@);
    req.push(0x0a);
    match mode {
        AuthMode::Vpn => {
            assert(ascii_bytes(mode_line(mode)) =~= Seq::<u8>::empty());
            assert(req@ =~= spec_auth_request(token@, mode));
        },
        AuthMode::Bench { direction, duration_secs, payload_bytes, target_mbps } => {
            push_bench_line(&mut req, direction, duration_secs, payload_bytes, target_mbps);
            assert(req@ =~= spec_auth_request(token@, mode));
        },
    }
    req
}

/// Appends the ASCII bytes of one more piece of a line.
fn push_piece(out: &mut Vec<u8>, piece: &str, Ghost(line): Ghost<Seq<char>>, Ghost(start): Ghost<Seq<u8>>)
    requires
        is_ascii_chars(piece@),
        old(out)@ == start + ascii_bytes(line),
    ensures
        final(out)@ == start + ascii_bytes(line + piece@),
{
    push_ascii(out, piece);
    proof {
        lemma_ascii_bytes_concat(line, piece@);
    }
}

/// Appends one more number to a line.
fn push_number(out: &mut Vec<u8>, n: u128, Ghost(line): Ghost<Seq<char>>, Ghost(start): Ghost<Seq<u8>>)
    requires
        old(out)@ == start + ascii_bytes(line),
    ensures
        final(out)@ == start + ascii_bytes(line + decimal(n as nat)),
{
    push_decimal(out, n);
    proof {
        lemma_ascii_bytes_concat(line, decimal(n as nat));
    }
}

/// Appends one more character to a line.
fn push_char_byte(out: &mut Vec<u8>, b: u8, Ghost(c): Ghost<char>, Ghost(line): Ghost<Seq<char>>, Ghost(start): Ghost<Seq<u8>>)
    requires
        old(out)@ == start + ascii_bytes(line),
        c as u8 == b,
    ensures
        final(out)@ == start + ascii_bytes(line + seq![c]),
{
    out.push(b);
    proof {
        lemma_ascii_bytes_concat(line, seq![c]);
        assert(ascii_bytes(seq![c]) =~= seq![b]);
    }
}

/// Appends the benchmark line for the given fields, with its line feed.
fn push_bench_line(
    out: &mut Vec<u8>,
    direction: BenchDirection,
    duration_secs: u64,
    payload_bytes: usize,
    target_mbps: Option<u64>,
)
    ensures
        final(out)@ == old(out)@ + ascii_bytes(
            mode_line(AuthMode::Bench { direction, duration_secs, payload_bytes, target_mbps }),
        ),
{
    let ghost start = out@;
    proof {
        reveal_strlit("bench");
        lemma_direction_name(direction);
        assert(ascii_bytes(Seq::<char>::empty()) =~= Seq::<u8>::empty());
        assert(out@ =~= start + ascii_bytes(Seq::<char>::empty()));
    }
    let ghost l0 = Seq::<char>::empty();
    push_piece(out, "bench", Ghost(l0), Ghost(start));
    let ghost l1 = l0 + "bench"@;
    push_char_byte(out, 0x20, Ghost(' '), Ghost(l1), Ghost(start));
    let ghost l2 = l1 + seq![' '];
    push_piece(out, direction.as_str(), Ghost(l2), Ghost(start));
    let ghost l3 = l2 + direction_name(direction);
    push_char_byte(out, 0x20, Ghost(' '), Ghost(l3), Ghost(start));
    let ghost l4 = l3 + seq![' '];
    push_number(out, duration_secs as u128, Ghost(l4), Ghost(start));
    let ghost l5 = l4 + decimal(duration_secs as nat);
    push_char_byte(out, 0x20, Ghost(' '), Ghost(l5), Ghost(start));
    let ghost l6 = l5 + seq![' '];
    push_number(out, payload_bytes as u128, Ghost(l6), Ghost(start));
    let ghost l7 = l6 + decimal(payload_bytes as nat);
    push_char_byte(out, 0x20, Ghost(' '), Ghost(l7), Ghost(start));
    let ghost l8 = l7 + seq![' '];
    let target = match target_mbps {
        Some(v) => v,
        None => 0,
    };
    push_number(out, target as u128, Ghost(l8), Ghost(start));
    let ghost l9 = l8 + decimal(target as nat);
    push_char_byte(out, 0x0a, Ghost('\n'), Ghost(l9), Ghost(start));
    proof {
        let l10 = l9 + seq!['\n'];
        assert(l10 =~= mode_line(
            AuthMode::Bench { direction, duration_secs, payload_bytes, target_mbps },
        ));
    }
}

/// Whether the server's reply accepts the client: it must be exactly `OK\n`.
pub fn check_auth_response(response: &[u8]) -> (r: Result<(), AuthError>)
    ensures
        r is Ok <==> response@ == ok_bytes(),
        r is Err ==> r == Err::<(), AuthError>(AuthError::Rejected),
{
    let ok = AUTH_OK;
    assert(ok@ =~= ok_bytes());
    if response.len() != 3 {
        return Err(AuthError::Rejected);
    }
    if response[0] == ok[0] && response[1] == ok[1] && response[2] == ok[2] {
        assert(response@ =~= ok_bytes());
        Ok(())
    } else {
        Err(AuthError::Rejected)
    }
}

// ---------------------------------------------------------------------------
// The server's side
// ---------------------------------------------------------------------------

/// The server's verdict on a request when it holds `expected` as the token.
pub open spec fn spec_authorize(req: Seq<u8>, expected: Seq<char>) -> Result<AuthMode, AuthError> {
    match spec_parse_request(req) {
        Err(e) => Err(e),
        Ok((t, m)) => if t == expected {
            Ok(m)
        } else {
            Err(AuthError::InvalidToken)
        },
    }
}

/// Parses `request` and checks its token against `expected_token`: the
/// requested mode when both hold, `InvalidToken` when the token differs, and
/// the parse error otherwise.
pub fn authorize_request(request: &[u8], expected_token: &str) -> (r: Result<AuthMode, AuthError>)
    ensures
        r == spec_authorize(request@, expected_token@),
{
    match parse_request(request) {
        Err(e) => Err(e),
        Ok((token, mode)) => {
            if same_text(token, expected_token) {
                Ok(mode)
            } else {
                Err(AuthError::InvalidToken)
            }
        },
    }
}

/// The reply to an outcome: the accepting reply for an accepted request, the refusing
/// one when only the token differs, and none for a malformed request.
pub open spec fn spec_auth_reply(outcome: Result<AuthMode, AuthError>) -> Option<Seq<u8>> {
    match outcome {
        Ok(_) => Some(ok_bytes()),
        Err(AuthError::InvalidToken) => Some(err_bytes()),
        Err(_) => None,
    }
}

/// The bytes of an optional reply.
pub open spec fn reply_bytes(r: Option<Vec<u8>>) -> Option<Seq<u8>> {
    match r {
        Some(v) => Some(v@),
        None => None,
    }
}

/// The reply the server sends for `outcome`, if it sends one.
pub fn auth_reply(outcome: &Result<AuthMode, AuthError>) -> (r: Option<Vec<u8>>)
    ensures
        reply_bytes(r) == spec_auth_reply(*outcome),
{
    match outcome {
        Ok(_) => {
            let v: Vec<u8> = vec![0x4f, 0x4b, 0x0a];
            assert(v@ =~= ok_bytes());
            Some(v)
        },
        Err(AuthError::InvalidToken) => {
            let v: Vec<u8> = vec![0x45, 0x52, 0x52, 0x0a];
            assert(v@ =~= err_bytes());
            Some(v)
        },
        Err(_) => None,
    }
}

// ---------------------------------------------------------------------------
// Laws
// ---------------------------------------------------------------------------

/// The mode a server reads back: an explicit zero target means unlimited.
pub open spec fn normalized(mode: AuthMode) -> AuthMode {
    match mode {
        AuthMode::Vpn => AuthMode::Vpn,
        AuthMode::Bench { direction, duration_secs, payload_bytes, target_mbps } => AuthMode::Bench {
            direction,
            duration_secs,
            payload_bytes,
            target_mbps: if target_value(target_mbps) == 0 {
                None
            } else {
                target_mbps
            },
        },
    }
}

/// Whether a client request for `token` and `mode` can be read back: the
/// token is one line (and, before a benchmark line, does not end in a
/// carriage return; alone, it is not empty), and a benchmark asks for a
/// positive duration and a payload of 64 to 1452 bytes.
pub open spec fn request_round_trips(token: Seq<char>, mode: AuthMode) -> bool {
    &&& no_newline(token)
    &&& match mode {
        AuthMode::Vpn => token.len() > 0,
        AuthMode::Bench { duration_secs, payload_bytes, .. } => {
            &&& (token.len() == 0 || token.last() != '\r')
            &&& duration_secs > 0
            &&& 64 <= payload_bytes <= 1452
        },
    }
}

/// The server reads a benchmark line back as the mode it was built from.
pub proof fn lemma_bench_line_round_trip(
    direction: BenchDirection,
    duration_secs: u64,
    payload_bytes: usize,
    target_mbps: Option<u64>,
)
    requires
        duration_secs > 0,
        64 <= payload_bytes <= 1452,
    ensures
        spec_parse_mode(bench_fields(direction, duration_secs, payload_bytes, target_mbps)) == Ok::<
            AuthMode,
            AuthError,
        >(normalized(AuthMode::Bench { direction, duration_secs, payload_bytes, target_mbps })),
{
    reveal_strlit("bench");
    lemma_direction_name(direction);
    let t = target_value(target_mbps);
    let tv: u64 = match target_mbps {
        Some(v) => v,
        None => 0,
    };
    assert(t == tv as nat);
    lemma_decimal(duration_secs as nat);
    lemma_decimal(payload_bytes as nat);
    lemma_decimal(t);
    lemma_parse_decimal_u64(duration_secs);
    lemma_parse_decimal_usize(payload_bytes);
    lemma_parse_decimal_u64(tv);
    let sp = seq![' '];
    let name = direction_name(direction);
    let dd = decimal(duration_secs as nat);
    let pd = decimal(payload_bytes as nat);
    let td = decimal(t);
    assert(no_space("bench"@));
    assert(no_space(name));
    assert(no_space(dd));
    assert(no_space(pd));
    assert(no_space(td));
    let r4 = td;
    let r3 = pd + sp + r4;
    let r2 = dd + sp + r3;
    let r1 = name + sp + r2;
    let line = bench_fields(direction, duration_secs, payload_bytes, target_mbps);
    assert(line =~= "bench"@ + sp + r1);
    lemma_words_word_then_space("bench"@, r1);
    lemma_words_word_then_space(name, r2);
    lemma_words_word_then_space(dd, r3);
    lemma_words_word_then_space(pd, r4);
    lemma_words_single(td);
    let w = words(line);
    assert(w =~= seq!["bench"@, name, dd, pd, td]);
}

/// What the server reads from a client's request is what the client put in
/// it: the same token, and the same mode (an explicit zero target rate reads
/// back as unlimited).
pub proof fn lemma_request_round_trip(token: Seq<char>, mode: AuthMode)
    requires
        request_round_trips(token, mode),
    ensures
        spec_parse_request(spec_auth_request(token, mode)) == Ok::<(Seq<char>, AuthMode), AuthError>(
            (token, normalized(mode)),
        ),
{
    let ml = mode_line(mode);
    let req = spec_auth_request(token, mode);
    let nl = seq!['\n'];
    assert(req.take(6) =~= magic_bytes());
    let text = token + nl + ml;
    lemma_encode_concat(token, nl);
    lemma_encode_concat(token + nl, ml);
    assert(encode_utf8(nl) =~= seq![0x0au8]) by {
        assert(is_ascii_chars(nl));
        lemma_encode_ascii(nl);
    }
    match mode {
        AuthMode::Vpn => {
            assert(ml =~= Seq::<char>::empty());
            assert(encode_utf8(ml) =~= Seq::<u8>::empty());
            assert(ascii_bytes(ml) =~= Seq::<u8>::empty());
        },
        AuthMode::Bench { direction, duration_secs, payload_bytes, target_mbps } => {
            lemma_bench_fields_ascii(direction, duration_secs, payload_bytes, target_mbps);
            lemma_encode_ascii(ml);
        },
    }
    assert(req.skip(6) =~= encode_utf8(text));
    encode_utf8_valid_utf8(text);
    encode_utf8_decode_utf8(text);
    assert(decode_utf8(req.skip(6)) == text);
    match mode {
        AuthMode::Vpn => {
            assert(text =~= token + nl);
            assert(text.drop_last() =~= token);
            lemma_lines_single(token);
        },
        AuthMode::Bench { direction, duration_secs, payload_bytes, target_mbps } => {
            let f = bench_fields(direction, duration_secs, payload_bytes, target_mbps);
            assert(text.drop_last() =~= token + nl + f);
            lemma_lines_first(token, f);
            // the benchmark line holds no line feed
            reveal_strlit("bench");
            lemma_direction_name(direction);
            lemma_decimal(duration_secs as nat);
            lemma_decimal(payload_bytes as nat);
            lemma_decimal(target_value(target_mbps));
            assert(no_newline(f)) by {
                assert forall|i: int| 0 <= i < f.len() implies #[trigger] f[i] != '\n' by {
                    lemma_bench_fields_ascii(direction, duration_secs, payload_bytes, target_mbps);
                    lemma_bench_fields_no_newline(
                        direction,
                        duration_secs,
                        payload_bytes,
                        target_mbps,
                        i,
                    );
                }
            }
            reveal_strlit("bench");
            assert(f.len() > 0);
            lemma_lines_single(f);
            assert(strip_cr(token) == token);
            lemma_bench_line_round_trip(direction, duration_secs, payload_bytes, target_mbps);
            assert(lines(text.drop_last()) =~= seq![token, f]);
        },
    }
}

/// No character of a benchmark line is a line feed.
proof fn lemma_bench_fields_no_newline(
    direction: BenchDirection,
    duration_secs: u64,
    payload_bytes: usize,
    target_mbps: Option<u64>,
    i: int,
)
    requires
        0 <= i < bench_fields(direction, duration_secs, payload_bytes, target_mbps).len(),
    ensures
        bench_fields(direction, duration_secs, payload_bytes, target_mbps)[i] != '\n',
{
    reveal_strlit("bench");
    lemma_direction_name(direction);
    lemma_decimal(duration_secs as nat);
    lemma_decimal(payload_bytes as nat);
    lemma_decimal(target_value(target_mbps));
    let sp = seq![' '];
    let parts = seq![
        "bench"@,
        sp,
        direction_name(direction),
        sp,
        decimal(duration_secs as nat),
        sp,
        decimal(payload_bytes as nat),
        sp,
        decimal(target_value(target_mbps)),
    ];
    assert(no_newline("bench"@));
    assert(no_newline(sp));
    let f = bench_fields(direction, duration_secs, payload_bytes, target_mbps);
    let a1 = "bench"@ + sp;
    let a2 = a1 + direction_name(direction);
    let a3 = a2 + sp;
    let a4 = a3 + decimal(duration_secs as nat);
    let a5 = a4 + sp;
    let a6 = a5 + decimal(payload_bytes as nat);
    let a7 = a6 + sp;
    lemma_no_newline_concat("bench"@, sp);
    lemma_no_newline_concat(a1, direction_name(direction));
    lemma_no_newline_concat(a2, sp);
    lemma_no_newline_concat(a3, decimal(duration_secs as nat));
    lemma_no_newline_concat(a4, sp);
    lemma_no_newline_concat(a5, decimal(payload_bytes as nat));
    lemma_no_newline_concat(a6, sp);
    lemma_no_newline_concat(a7, decimal(target_value(target_mbps)));
}

proof fn lemma_no_newline_concat(a: Seq<char>, b: Seq<char>)
    requires
        no_newline(a),
        no_newline(b),
    ensures
        no_newline(a + b),
{
    assert forall|i: int| 0 <= i < (a + b).len() implies #[trigger] (a + b)[i] != '\n' by {
        if i < a.len() {
            assert((a + b)[i] == a[i]);
        } else {
            assert((a + b)[i] == b[i - a.len()]);
        }
    }
}

/// The server accepts a well-formed request exactly when its token is the
/// one the server holds; it then answers `OK`, otherwise `ERR`, and the
/// client takes the answer as acceptance exactly in the first case.
pub proof fn lemma_token_decides(token: Seq<char>, mode: AuthMode, expected: Seq<char>)
    requires
        request_round_trips(token, mode),
    ensures
        spec_authorize(spec_auth_request(token, mode), expected) == (if token == expected {
            Ok::<AuthMode, AuthError>(normalized(mode))
        } else {
            Err(AuthError::InvalidToken)
        }),
        spec_auth_reply(spec_authorize(spec_auth_request(token, mode), expected)) is Some,
        (spec_auth_reply(spec_authorize(spec_auth_request(token, mode), expected))->0
            == ok_bytes()) == (token == expected),
{
    lemma_request_round_trip(token, mode);
    assert(ok_bytes() != err_bytes()) by {
        assert(ok_bytes().len() != err_bytes().len());
    }
}

/// A malformed request is never answered, and an answered request was
/// well-formed.
pub proof fn lemma_reply_only_to_well_formed(req: Seq<u8>, expected: Seq<char>)
    ensures
        (spec_auth_reply(spec_authorize(req, expected)) is Some) == (spec_parse_request(req) is Ok),
{
}

/// Every benchmark the server accepts runs for a positive time, with a
/// payload of 64 to 1452 bytes and either no target rate or a positive one.
pub proof fn lemma_parsed_bench_is_valid(req: Seq<u8>)
    ensures
        spec_parse_request(req) matches Ok((_, AuthMode::Bench { duration_secs, payload_bytes, target_mbps, .. }))
            ==> duration_secs > 0 && 64 <= payload_bytes <= 1452 && target_mbps != Some(0u64),
{
}

} // verus!
