//! The wire codec: typed outbound commands to wire frames, wire frames
//! to typed inbound events. A frame is one JSON object in the service's
//! canonical form, with a `"type"` discriminant field; string values use
//! the escapes `\"`, `\\`, `\n`, `\r`, `\t`, and `\u00XX` for the
//! remaining control characters, so every frame emitted is a valid JSON
//! object.
//!
//! Decoding deliberately accepts exactly the canonical form — the field
//! order and spelling of the frames the service exchanges — and nothing
//! looser: any other text is surfaced verbatim as `Unrecognized`, the
//! non-fatal diagnostic the consumer may still display. That exactness
//! is what the two laws at the end of this file state: a text decodes
//! if and only if it is the canonical frame of its event.

use vstd::prelude::*;
use crate::message::{ClientMessage, ClientMessageView, DecodeError, ServerMessage,
    ServerMessageView};
use crate::text::{chars_eq, string_from_chars};

verus! {

// ---------------------------------------------------------------------
// Escaping of string values
// ---------------------------------------------------------------------
/// The lowercase hexadecimal digit for a value below sixteen.
pub open spec fn hex_char(n: int) -> char {
    if n == 0 {
        '0'
    } else if n == 1 {
        '1'
    } else if n == 2 {
        '2'
    } else if n == 3 {
        '3'
    } else if n == 4 {
        '4'
    } else if n == 5 {
        '5'
    } else if n == 6 {
        '6'
    } else if n == 7 {
        '7'
    } else if n == 8 {
        '8'
    } else if n == 9 {
        '9'
    } else if n == 10 {
        'a'
    } else if n == 11 {
        'b'
    } else if n == 12 {
        'c'
    } else if n == 13 {
        'd'
    } else if n == 14 {
        'e'
    } else {
        'f'
    }
}

/// The value of a lowercase hexadecimal digit, or a negative number for
/// anything else.
pub open spec fn hex_val(c: char) -> int {
    if c == '0' {
        0
    } else if c == '1' {
        1
    } else if c == '2' {
        2
    } else if c == '3' {
        3
    } else if c == '4' {
        4
    } else if c == '5' {
        5
    } else if c == '6' {
        6
    } else if c == '7' {
        7
    } else if c == '8' {
        8
    } else if c == '9' {
        9
    } else if c == 'a' {
        10
    } else if c == 'b' {
        11
    } else if c == 'c' {
        12
    } else if c == 'd' {
        13
    } else if c == 'e' {
        14
    } else if c == 'f' {
        15
    } else {
        -1
    }
}

/// A control character with no single-letter escape of its own: it
/// appears as `\u00XX`, as JSON requires.
pub open spec fn is_ctl(c: char) -> bool {
    (c as u32) < 32 && c != '\n' && c != '\r' && c != '\t'
}

/// A code point that a canonical `\u00XX` escape may carry.
pub open spec fn ctl_code(v: int) -> bool {
    0 <= v < 32 && v != 9 && v != 10 && v != 13
}

/// The control character with code `v`.
pub open spec fn ctl_char(v: int) -> char {
    (v as u8) as char
}

/// How one character appears inside a quoted string value.
pub open spec fn esc_char(c: char) -> Seq<char> {
    if c == '"' {
        seq!['\\', '"']
    } else if c == '\\' {
        seq!['\\', '\\']
    } else if c == '\n' {
        seq!['\\', 'n']
    } else if c == '\r' {
        seq!['\\', 'r']
    } else if c == '\t' {
        seq!['\\', 't']
    } else if is_ctl(c) {
        seq!['\\', 'u', '0', '0', hex_char((c as u32) as int / 16), hex_char(
            (c as u32) as int % 16,
        )]
    } else {
        seq![c]
    }
}

/// How a whole string value appears inside quotes.
pub open spec fn esc(s: Seq<char>) -> Seq<char>
    decreases s.len(),
{
    if s.len() == 0 {
        Seq::empty()
    } else {
        esc_char(s[0]) + esc(s.drop_first())
    }
}

/// The character named by an escape sequence `\c`, if `\c` is a valid one.
pub open spec fn unescape_char(c: char) -> Option<char> {
    if c == '"' {
        Some('"')
    } else if c == '\\' {
        Some('\\')
    } else if c == 'n' {
        Some('\n')
    } else if c == 'r' {
        Some('\r')
    } else if c == 't' {
        Some('\t')
    } else {
        None
    }
}

// ---------------------------------------------------------------------
// The literal pieces of a frame
// ---------------------------------------------------------------------
/// `{"type":"` — every frame opens with the discriminant key.
pub open spec fn lit_head() -> Seq<char> {
    seq!['{', '"', 't', 'y', 'p', 'e', '"', ':', '"']
}

/// `,"username":"`
pub open spec fn lit_username() -> Seq<char> {
    seq![',', '"', 'u', 's', 'e', 'r', 'n', 'a', 'm', 'e', '"', ':', '"']
}

/// `,"chatname":"`
pub open spec fn lit_chatname() -> Seq<char> {
    seq![',', '"', 'c', 'h', 'a', 't', 'n', 'a', 'm', 'e', '"', ':', '"']
}

/// `,"password":"`
pub open spec fn lit_password() -> Seq<char> {
    seq![',', '"', 'p', 'a', 's', 's', 'w', 'o', 'r', 'd', '"', ':', '"']
}

/// `,"content":"`
pub open spec fn lit_content() -> Seq<char> {
    seq![',', '"', 'c', 'o', 'n', 't', 'e', 'n', 't', '"', ':', '"']
}

/// `,"message":"`
pub open spec fn lit_message() -> Seq<char> {
    seq![',', '"', 'm', 'e', 's', 's', 'a', 'g', 'e', '"', ':', '"']
}

/// `,"color":"`
pub open spec fn lit_color() -> Seq<char> {
    seq![',', '"', 'c', 'o', 'l', 'o', 'r', '"', ':', '"']
}

pub open spec fn disc_join() -> Seq<char> {
    seq!['j', 'o', 'i', 'n']
}

pub open spec fn disc_leave() -> Seq<char> {
    seq!['l', 'e', 'a', 'v', 'e']
}

pub open spec fn disc_message() -> Seq<char> {
    seq!['m', 'e', 's', 's', 'a', 'g', 'e']
}

pub open spec fn disc_error() -> Seq<char> {
    seq!['e', 'r', 'r', 'o', 'r']
}

pub open spec fn disc_auth_failed() -> Seq<char> {
    seq!['a', 'u', 't', 'h', '_', 'f', 'a', 'i', 'l', 'e', 'd']
}

pub open spec fn disc_colourshift() -> Seq<char> {
    seq!['c', 'o', 'l', 'o', 'u', 'r', 's', 'h', 'i', 'f', 't']
}

pub open spec fn disc_bgshift() -> Seq<char> {
    seq!['b', 'g', 's', 'h', 'i', 'f', 't']
}

pub open spec fn disc_chatclear() -> Seq<char> {
    seq!['c', 'h', 'a', 't', 'c', 'l', 'e', 'a', 'r']
}

pub open spec fn disc_kicked() -> Seq<char> {
    seq!['k', 'i', 'c', 'k', 'e', 'd']
}

// ---------------------------------------------------------------------
// Canonical frames
// ---------------------------------------------------------------------
/// A frame with no payload field: `{"type":"D"}`.
pub open spec fn frame_zero(disc: Seq<char>) -> Seq<char> {
    lit_head() + disc + seq!['"', '}']
}

/// A frame with one string field: `{"type":"D","key":"V"}`.
pub open spec fn frame_one(disc: Seq<char>, key: Seq<char>, v: Seq<char>) -> Seq<char> {
    lit_head() + disc + seq!['"'] + key + esc(v) + seq!['"', '}']
}

/// A frame with two string fields.
pub open spec fn frame_two(
    disc: Seq<char>,
    key1: Seq<char>,
    v1: Seq<char>,
    key2: Seq<char>,
    v2: Seq<char>,
) -> Seq<char> {
    lit_head() + disc + seq!['"'] + key1 + esc(v1) + seq!['"'] + key2 + esc(v2) + seq!['"', '}']
}

/// The canonical frame for an outbound command.
pub open spec fn client_frame(m: ClientMessageView) -> Seq<char> {
    match m {
        ClientMessageView::Join { username, chatname, password } => lit_head() + disc_join()
            + seq!['"'] + lit_username() + esc(username) + seq!['"'] + lit_chatname() + esc(
            chatname,
        ) + seq!['"'] + lit_password() + esc(password) + seq!['"', '}'],
        ClientMessageView::Message { content } => frame_one(disc_message(), lit_content(), content),
    }
}

/// The canonical frame for an inbound event.
pub open spec fn server_frame(m: ServerMessageView) -> Seq<char> {
    match m {
        ServerMessageView::Join { username } => frame_one(disc_join(), lit_username(), username),
        ServerMessageView::Leave { username } => frame_one(disc_leave(), lit_username(), username),
        ServerMessageView::Message { username, content } => frame_two(
            disc_message(),
            lit_username(),
            username,
            lit_content(),
            content,
        ),
        ServerMessageView::Error { message } => frame_one(disc_error(), lit_message(), message),
        ServerMessageView::AuthFailed { message } => frame_one(
            disc_auth_failed(),
            lit_message(),
            message,
        ),
        ServerMessageView::ColorShift { color } => frame_one(
            disc_colourshift(),
            lit_color(),
            color,
        ),
        ServerMessageView::BackgroundShift { color } => frame_one(
            disc_bgshift(),
            lit_color(),
            color,
        ),
        ServerMessageView::ChatClear => frame_zero(disc_chatclear()),
        ServerMessageView::Kicked { message } => frame_one(disc_kicked(), lit_message(), message),
    }
}

// ---------------------------------------------------------------------
// The specification parser: what `decode` computes
// ---------------------------------------------------------------------
/// Strips `p` from the front of `s`, if it is a prefix.
pub open spec fn strip_prefix(s: Seq<char>, p: Seq<char>) -> Option<Seq<char>> {
    if p.len() <= s.len() && s.take(p.len() as int) == p {
        Some(s.skip(p.len() as int))
    } else {
        None
    }
}

/// Reads characters up to an unescaped closing quote, with no escapes
/// allowed: the form a discriminant takes. Returns the token and what
/// follows the quote.
pub open spec fn scan_plain(s: Seq<char>) -> Option<(Seq<char>, Seq<char>)>
    decreases s.len(),
{
    if s.len() == 0 {
        None
    } else if s[0] == '"' {
        Some((Seq::empty(), s.drop_first()))
    } else if s[0] == '\\' {
        None
    } else {
        match scan_plain(s.drop_first()) {
            Some((t, r)) => Some((seq![s[0]] + t, r)),
            None => None,
        }
    }
}

/// Reads a string value up to its closing quote, resolving escapes.
/// Returns the unescaped value and what follows the quote.
pub open spec fn scan_string(s: Seq<char>) -> Option<(Seq<char>, Seq<char>)>
    decreases s.len(),
{
    if s.len() == 0 {
        None
    } else if s[0] == '"' {
        Some((Seq::empty(), s.drop_first()))
    } else if s[0] == '\\' {
        if s.len() >= 2 && s[1] == 'u' {
            if s.len() >= 6 && s[2] == '0' && s[3] == '0' && hex_val(s[4]) >= 0 && hex_val(s[5])
                >= 0 && ctl_code(hex_val(s[4]) * 16 + hex_val(s[5])) {
                match scan_string(s.skip(6)) {
                    Some((t, r)) => Some(
                        (seq![ctl_char(hex_val(s[4]) * 16 + hex_val(s[5]))] + t, r),
                    ),
                    None => None,
                }
            } else {
                None
            }
        } else if s.len() >= 2 {
            match unescape_char(s[1]) {
                Some(c) => match scan_string(s.skip(2)) {
                    Some((t, r)) => Some((seq![c] + t, r)),
                    None => None,
                },
                None => None,
            }
        } else {
            None
        }
    } else if (s[0] as u32) < 32 {
        // Canonical frames carry control characters escaped, never raw.
        None
    } else {
        match scan_string(s.drop_first()) {
            Some((t, r)) => Some((seq![s[0]] + t, r)),
            None => None,
        }
    }
}

/// Parses `rest` as `,"key":"V"}` and yields the unescaped `V`.
pub open spec fn tail_one(rest: Seq<char>, key: Seq<char>) -> Option<Seq<char>> {
    match strip_prefix(rest, key) {
        Some(r1) => match scan_string(r1) {
            Some((v, r2)) => if r2 == seq!['}'] {
                Some(v)
            } else {
                None
            },
            None => None,
        },
        None => None,
    }
}

/// Parses `rest` as `,"key1":"V1","key2":"V2"}` and yields both values.
pub open spec fn tail_two(rest: Seq<char>, key1: Seq<char>, key2: Seq<char>) -> Option<
    (Seq<char>, Seq<char>),
> {
    match strip_prefix(rest, key1) {
        Some(r1) => match scan_string(r1) {
            Some((v1, r2)) => match strip_prefix(r2, key2) {
                Some(r3) => match scan_string(r3) {
                    Some((v2, r4)) => if r4 == seq!['}'] {
                        Some((v1, v2))
                    } else {
                        None
                    },
                    None => None,
                },
                None => None,
            },
            None => None,
        },
        None => None,
    }
}

/// The event a frame denotes, if any: the reference for `decode`.
pub open spec fn decode_spec(s: Seq<char>) -> Option<ServerMessageView> {
    match strip_prefix(s, lit_head()) {
        Some(r0) => match scan_plain(r0) {
            Some((disc, rest)) => if disc == disc_join() {
                match tail_one(rest, lit_username()) {
                    Some(v) => Some(ServerMessageView::Join { username: v }),
                    None => None,
                }
            } else if disc == disc_leave() {
                match tail_one(rest, lit_username()) {
                    Some(v) => Some(ServerMessageView::Leave { username: v }),
                    None => None,
                }
            } else if disc == disc_message() {
                match tail_two(rest, lit_username(), lit_content()) {
                    Some((u, c)) => Some(ServerMessageView::Message { username: u, content: c }),
                    None => None,
                }
            } else if disc == disc_error() {
                match tail_one(rest, lit_message()) {
                    Some(v) => Some(ServerMessageView::Error { message: v }),
                    None => None,
                }
            } else if disc == disc_auth_failed() {
                match tail_one(rest, lit_message()) {
                    Some(v) => Some(ServerMessageView::AuthFailed { message: v }),
                    None => None,
                }
            } else if disc == disc_colourshift() {
                match tail_one(rest, lit_color()) {
                    Some(v) => Some(ServerMessageView::ColorShift { color: v }),
                    None => None,
                }
            } else if disc == disc_bgshift() {
                match tail_one(rest, lit_color()) {
                    Some(v) => Some(ServerMessageView::BackgroundShift { color: v }),
                    None => None,
                }
            } else if disc == disc_chatclear() {
                if rest == seq!['}'] {
                    Some(ServerMessageView::ChatClear)
                } else {
                    None
                }
            } else if disc == disc_kicked() {
                match tail_one(rest, lit_message()) {
                    Some(v) => Some(ServerMessageView::Kicked { message: v }),
                    None => None,
                }
            } else {
                None
            },
            None => None,
        },
        None => None,
    }
}

// ---------------------------------------------------------------------
// Encoding
// ---------------------------------------------------------------------
/// Escaping one more character extends the escaped text by that
/// character's escape.
proof fn lemma_esc_push(s: Seq<char>, c: char)
    ensures
        esc(s.push(c)) == esc(s) + esc_char(c),
    decreases s.len(),
{
    if s.len() == 0 {
        let t = s.push(c);
        assert(t[0] == c);
        assert(t.drop_first() =~= Seq::<char>::empty());
        assert(esc(t.drop_first()) == Seq::<char>::empty());
        assert(esc(t) == esc_char(c) + esc(t.drop_first()));
        assert(esc_char(c) + Seq::<char>::empty() =~= esc_char(c));
        assert(esc(s) + esc_char(c) =~= esc_char(c));
    } else {
        lemma_esc_push(s.drop_first(), c);
        assert(s.push(c).drop_first() =~= s.drop_first().push(c));
        assert(esc(s.push(c)) == esc_char(s[0]) + (esc(s.drop_first()) + esc_char(c)));
        assert(esc_char(s[0]) + (esc(s.drop_first()) + esc_char(c)) =~= (esc_char(s[0]) + esc(
            s.drop_first(),
        )) + esc_char(c));
    }
}

/// Appends the escaped form of `v` to `out`.
fn push_escaped(out: &mut Vec<char>, v: &Vec<char>)
    ensures
        final(out)@ == old(out)@ + esc(v@),
{
    let mut i: usize = 0;
    proof {
        assert(v@.take(0) =~= Seq::<char>::empty());
        assert(old(out)@ + esc(v@.take(0)) =~= old(out)@);
    }
    while i < v.len()
        invariant
            i <= v@.len(),
            out@ == old(out)@ + esc(v@.take(i as int)),
        decreases v@.len() - i,
    {
        let c = v[i];
        proof {
            lemma_esc_push(v@.take(i as int), c);
            assert(v@.take(i as int).push(c) =~= v@.take(i as int + 1));
        }
        if c == '"' {
            out.push('\\');
            out.push('"');
        } else if c == '\\' {
            out.push('\\');
            out.push('\\');
        } else if c == '\n' {
            out.push('\\');
            out.push('n');
        } else if c == '\r' {
            out.push('\\');
            out.push('r');
        } else if c == '\t' {
            out.push('\\');
            out.push('t');
        } else if (c as u32) < 32 {
            out.push('\\');
            out.push('u');
            out.push('0');
            out.push('0');
            out.push(hex_char_exec(((c as u32) / 16) as u8));
            out.push(hex_char_exec(((c as u32) % 16) as u8));
        } else {
            out.push(c);
        }
        proof {
            assert(out@ =~= old(out)@ + esc(v@.take(i as int + 1)));
        }
        i = i + 1;
    }
    proof {
        assert(v@.take(v@.len() as int) =~= v@);
    }
}

/// Appends a literal piece to `out`.
fn push_lit(out: &mut Vec<char>, lit: &Vec<char>)
    ensures
        final(out)@ == old(out)@ + lit@,
{
    let mut i: usize = 0;
    while i < lit.len()
        invariant
            i <= lit@.len(),
            out@ == old(out)@ + lit@.take(i as int),
        decreases lit@.len() - i,
    {
        out.push(lit[i]);
        proof {
            assert(old(out)@ + lit@.take(i as int + 1) =~= (old(out)@ + lit@.take(i as int)).push(
                lit@[i as int],
            ));
        }
        i = i + 1;
    }
    proof {
        assert(lit@.take(lit@.len() as int) =~= lit@);
    }
}

// ---------------------------------------------------------------------
// Decoding
// ---------------------------------------------------------------------
/// The scan of the remaining input, with the already-unescaped prefix in
/// front: the shape of the decoder's loop invariant.
spec fn scan_string_step(acc: Seq<char>, rest: Seq<char>) -> Option<(Seq<char>, Seq<char>)> {
    match scan_string(rest) {
        Some((t, r)) => Some((acc + t, r)),
        None => None,
    }
}

/// As `scan_string_step`, for the escape-free scan.
spec fn scan_plain_step(acc: Seq<char>, rest: Seq<char>) -> Option<(Seq<char>, Seq<char>)> {
    match scan_plain(rest) {
        Some((t, r)) => Some((acc + t, r)),
        None => None,
    }
}

/// Whether the literal `lit` stands at position `pos`; on success returns
/// the position just past it.
fn match_lit(s: &Vec<char>, pos: usize, lit: &Vec<char>) -> (r: Option<usize>)
    requires
        pos <= s@.len(),
    ensures
        match r {
            Some(j) => pos <= j <= s@.len() && strip_prefix(s@.skip(pos as int), lit@) == Some(
                s@.skip(j as int),
            ),
            None => strip_prefix(s@.skip(pos as int), lit@) is None,
        },
{
    if s.len() - pos < lit.len() {
        return None;
    }
    let n = s.len();
    let mut i: usize = 0;
    while i < lit.len()
        invariant
            n == s@.len(),
            pos + lit@.len() <= s@.len(),
            i <= lit@.len(),
            forall|k: int| 0 <= k < i ==> s@[pos + k] == lit@[k],
        decreases lit@.len() - i,
    {
        if s[pos + i] != lit[i] {
            proof {
                let su = s@.skip(pos as int);
                assert(su.take(lit@.len() as int)[i as int] == s@[pos + i]);
                assert(su.take(lit@.len() as int) != lit@);
            }
            return None;
        }
        i = i + 1;
    }
    proof {
        let su = s@.skip(pos as int);
        assert(su.take(lit@.len() as int) =~= lit@);
        assert(su.skip(lit@.len() as int) =~= s@.skip(pos + lit@.len() as int));
    }
    Some(pos + lit.len())
}

/// Reads an escape-free token up to a closing quote, starting at `pos`.
fn scan_plain_exec(s: &Vec<char>, pos: usize) -> (r: Option<(Vec<char>, usize)>)
    requires
        pos <= s@.len(),
    ensures
        match r {
            Some(p) => pos < p.1 <= s@.len() && scan_plain(s@.skip(pos as int)) == Some(
                (p.0@, s@.skip(p.1 as int)),
            ),
            None => scan_plain(s@.skip(pos as int)) is None,
        },
{
    let mut acc: Vec<char> = Vec::new();
    let mut i: usize = pos;
    while i < s.len()
        invariant
            pos <= i <= s@.len(),
            scan_plain(s@.skip(pos as int)) == scan_plain_step(acc@, s@.skip(i as int)),
        decreases s@.len() - i,
    {
        let c = s[i];
        proof {
            assert(s@.skip(i as int)[0] == c);
            assert(s@.skip(i as int).drop_first() =~= s@.skip(i as int + 1));
        }
        if c == '"' {
            proof {
                assert(acc@ + Seq::<char>::empty() =~= acc@);
            }
            return Some((acc, i + 1));
        }
        if c == '\\' {
            return None;
        }
        proof {
            let t0 = scan_plain(s@.skip(i as int + 1));
            if t0 is Some {
                let tp = t0->0;
                assert(acc@ + (seq![c] + tp.0) =~= acc@.push(c) + tp.0);
            }
        }
        acc.push(c);
        i = i + 1;
    }
    proof {
        assert(s@.skip(i as int) =~= Seq::<char>::empty());
    }
    None
}

/// The value of a lowercase hexadecimal digit, as executable code.
fn hex_val_exec(c: char) -> (r: i32)
    ensures
        r as int == hex_val(c),
{
    if c == '0' {
        0
    } else if c == '1' {
        1
    } else if c == '2' {
        2
    } else if c == '3' {
        3
    } else if c == '4' {
        4
    } else if c == '5' {
        5
    } else if c == '6' {
        6
    } else if c == '7' {
        7
    } else if c == '8' {
        8
    } else if c == '9' {
        9
    } else if c == 'a' {
        10
    } else if c == 'b' {
        11
    } else if c == 'c' {
        12
    } else if c == 'd' {
        13
    } else if c == 'e' {
        14
    } else if c == 'f' {
        15
    } else {
        -1
    }
}

/// The lowercase hexadecimal digit of a value below sixteen, as
/// executable code.
fn hex_char_exec(n: u8) -> (r: char)
    requires
        n < 16,
    ensures
        r == hex_char(n as int),
{
    if n < 10 {
        (('0' as u8) + n) as char
    } else {
        (('a' as u8) + (n - 10)) as char
    }
}

/// Reads a string value up to its closing quote, resolving escapes,
/// starting at `pos`.
fn scan_string_exec(s: &Vec<char>, pos: usize) -> (r: Option<(Vec<char>, usize)>)
    requires
        pos <= s@.len(),
    ensures
        match r {
            Some(p) => pos < p.1 <= s@.len() && scan_string(s@.skip(pos as int)) == Some(
                (p.0@, s@.skip(p.1 as int)),
            ),
            None => scan_string(s@.skip(pos as int)) is None,
        },
{
    let mut acc: Vec<char> = Vec::new();
    let mut i: usize = pos;
    while i < s.len()
        invariant
            pos <= i <= s@.len(),
            scan_string(s@.skip(pos as int)) == scan_string_step(acc@, s@.skip(i as int)),
        decreases s@.len() - i,
    {
        let c = s[i];
        proof {
            assert(s@.skip(i as int)[0] == c);
            assert(s@.skip(i as int).drop_first() =~= s@.skip(i as int + 1));
        }
        if c == '"' {
            proof {
                assert(acc@ + Seq::<char>::empty() =~= acc@);
            }
            return Some((acc, i + 1));
        }
        if c == '\\' {
            if i + 1 >= s.len() {
                proof {
                    assert(s@.skip(i as int).len() < 2);
                }
                return None;
            }
            let d = s[i + 1];
            proof {
                assert(s@.skip(i as int).len() >= 2);
                assert(s@.skip(i as int)[1] == d);
                assert(s@.skip(i as int).skip(2) =~= s@.skip(i as int + 2));
            }
            if d == 'u' {
                if s.len() - i < 6 {
                    proof {
                        assert(s@.skip(i as int).len() < 6);
                    }
                    return None;
                }
                let h2 = s[i + 2];
                let h3 = s[i + 3];
                let h4 = s[i + 4];
                let h5 = s[i + 5];
                proof {
                    assert(s@.skip(i as int)[2] == h2);
                    assert(s@.skip(i as int)[3] == h3);
                    assert(s@.skip(i as int)[4] == h4);
                    assert(s@.skip(i as int)[5] == h5);
                    assert(s@.skip(i as int).skip(6) =~= s@.skip(i as int + 6));
                }
                if h2 != '0' || h3 != '0' {
                    return None;
                }
                let d1 = hex_val_exec(h4);
                let d2 = hex_val_exec(h5);
                if d1 < 0 || d2 < 0 {
                    return None;
                }
                let v = d1 * 16 + d2;
                if v >= 32 || v == 9 || v == 10 || v == 13 {
                    return None;
                }
                let u = (v as u8) as char;
                proof {
                    assert(u == ctl_char(hex_val(h4) * 16 + hex_val(h5)));
                    let t0 = scan_string(s@.skip(i as int + 6));
                    if t0 is Some {
                        let tp = t0->0;
                        assert(acc@ + (seq![u] + tp.0) =~= acc@.push(u) + tp.0);
                    }
                }
                acc.push(u);
                i = i + 6;
                continue ;
            }
            let u: char = if d == '"' {
                '"'
            } else if d == '\\' {
                '\\'
            } else if d == 'n' {
                '\n'
            } else if d == 'r' {
                '\r'
            } else if d == 't' {
                '\t'
            } else {
                return None;
            };
            proof {
                assert(unescape_char(d) == Some(u));
                let t0 = scan_string(s@.skip(i as int + 2));
                if t0 is Some {
                    let tp = t0->0;
                    assert(acc@ + (seq![u] + tp.0) =~= acc@.push(u) + tp.0);
                }
            }
            acc.push(u);
            i = i + 2;
        } else if (c as u32) < 32 {
            return None;
        } else {
            proof {
                let t0 = scan_string(s@.skip(i as int + 1));
                if t0 is Some {
                    let tp = t0->0;
                    assert(acc@ + (seq![c] + tp.0) =~= acc@.push(c) + tp.0);
                }
            }
            acc.push(c);
            i = i + 1;
        }
    }
    proof {
        assert(s@.skip(i as int) =~= Seq::<char>::empty());
    }
    None
}

/// Whether everything from `pos` on is exactly the closing `}`.
fn only_rbrace(s: &Vec<char>, pos: usize) -> (r: bool)
    requires
        pos <= s@.len(),
    ensures
        r == (s@.skip(pos as int) == seq!['}']),
{
    let r = pos < s.len() && pos + 1 == s.len() && s[pos] == '}';
    proof {
        if r {
            assert(s@.skip(pos as int) =~= seq!['}']);
        } else {
            if s@.skip(pos as int) == seq!['}'] {
                assert(s@.skip(pos as int).len() == 1);
                assert(s@.skip(pos as int)[0] == '}');
            }
        }
    }
    r
}

/// Parses `,"key":"V"}` at `pos` and yields the unescaped `V`.
fn parse_tail_one(s: &Vec<char>, pos: usize, key: &Vec<char>) -> (r: Option<Vec<char>>)
    requires
        pos <= s@.len(),
    ensures
        match r {
            Some(v) => tail_one(s@.skip(pos as int), key@) == Some(v@),
            None => tail_one(s@.skip(pos as int), key@) is None,
        },
{
    match match_lit(s, pos, key) {
        Some(j) => match scan_string_exec(s, j) {
            Some((v, j2)) => {
                if only_rbrace(s, j2) {
                    Some(v)
                } else {
                    None
                }
            },
            None => None,
        },
        None => None,
    }
}

/// Parses `,"key1":"V1","key2":"V2"}` at `pos` and yields both values.
fn parse_tail_two(s: &Vec<char>, pos: usize, key1: &Vec<char>, key2: &Vec<char>) -> (r: Option<
    (Vec<char>, Vec<char>),
>)
    requires
        pos <= s@.len(),
    ensures
        match r {
            Some(p) => tail_two(s@.skip(pos as int), key1@, key2@) == Some((p.0@, p.1@)),
            None => tail_two(s@.skip(pos as int), key1@, key2@) is None,
        },
{
    match match_lit(s, pos, key1) {
        Some(j) => match scan_string_exec(s, j) {
            Some((v1, j2)) => match match_lit(s, j2, key2) {
                Some(j3) => match scan_string_exec(s, j3) {
                    Some((v2, j4)) => {
                        if only_rbrace(s, j4) {
                            Some((v1, v2))
                        } else {
                            None
                        }
                    },
                    None => None,
                },
                None => None,
            },
            None => None,
        },
        None => None,
    }
}

/// Decodes a wire frame into the inbound event it denotes. A frame whose
/// discriminant is unrecognized or whose structure is malformed yields
/// `DecodeError::Unrecognized` carrying the raw text, so the caller can
/// still display it.
pub fn decode(s: &str) -> (r: Result<ServerMessage, DecodeError>)
    ensures
        match r {
            Ok(m) => decode_spec(s@) == Some(m@),
            Err(DecodeError::Unrecognized(raw)) => decode_spec(s@) is None && raw@ == s@,
        },
{
    let chars = crate::text::chars_of(s);
    proof {
        assert(chars@.skip(0) =~= chars@);
    }
    let head = vec!['{', '"', 't', 'y', 'p', 'e', '"', ':', '"'];
    proof {
        assert(head@ =~= lit_head());
    }
    let key_username = vec![',', '"', 'u', 's', 'e', 'r', 'n', 'a', 'm', 'e', '"', ':', '"'];
    let key_content = vec![',', '"', 'c', 'o', 'n', 't', 'e', 'n', 't', '"', ':', '"'];
    let key_message = vec![',', '"', 'm', 'e', 's', 's', 'a', 'g', 'e', '"', ':', '"'];
    let key_color = vec![',', '"', 'c', 'o', 'l', 'o', 'r', '"', ':', '"'];
    proof {
        assert(key_username@ =~= lit_username());
        assert(key_content@ =~= lit_content());
        assert(key_message@ =~= lit_message());
        assert(key_color@ =~= lit_color());
    }
    let p0 = match match_lit(&chars, 0, &head) {
        Some(j) => j,
        None => {
            return Err(DecodeError::Unrecognized(s.to_owned()));
        },
    };
    let (disc, p1) = match scan_plain_exec(&chars, p0) {
        Some(p) => p,
        None => {
            return Err(DecodeError::Unrecognized(s.to_owned()));
        },
    };
    let d_join = vec!['j', 'o', 'i', 'n'];
    let d_leave = vec!['l', 'e', 'a', 'v', 'e'];
    let d_message = vec!['m', 'e', 's', 's', 'a', 'g', 'e'];
    let d_error = vec!['e', 'r', 'r', 'o', 'r'];
    let d_auth = vec!['a', 'u', 't', 'h', '_', 'f', 'a', 'i', 'l', 'e', 'd'];
    let d_colour = vec!['c', 'o', 'l', 'o', 'u', 'r', 's', 'h', 'i', 'f', 't'];
    let d_bg = vec!['b', 'g', 's', 'h', 'i', 'f', 't'];
    let d_clear = vec!['c', 'h', 'a', 't', 'c', 'l', 'e', 'a', 'r'];
    let d_kicked = vec!['k', 'i', 'c', 'k', 'e', 'd'];
    proof {
        assert(d_join@ =~= disc_join());
        assert(d_leave@ =~= disc_leave());
        assert(d_message@ =~= disc_message());
        assert(d_error@ =~= disc_error());
        assert(d_auth@ =~= disc_auth_failed());
        assert(d_colour@ =~= disc_colourshift());
        assert(d_bg@ =~= disc_bgshift());
        assert(d_clear@ =~= disc_chatclear());
        assert(d_kicked@ =~= disc_kicked());
    }
    if chars_eq(&disc, &d_join) {
        match parse_tail_one(&chars, p1, &key_username) {
            Some(v) => Ok(ServerMessage::Join { username: string_from_chars(&v) }),
            None => Err(DecodeError::Unrecognized(s.to_owned())),
        }
    } else if chars_eq(&disc, &d_leave) {
        match parse_tail_one(&chars, p1, &key_username) {
            Some(v) => Ok(ServerMessage::Leave { username: string_from_chars(&v) }),
            None => Err(DecodeError::Unrecognized(s.to_owned())),
        }
    } else if chars_eq(&disc, &d_message) {
        match parse_tail_two(&chars, p1, &key_username, &key_content) {
            Some((u, c)) => Ok(
                ServerMessage::Message {
                    username: string_from_chars(&u),
                    content: string_from_chars(&c),
                },
            ),
            None => Err(DecodeError::Unrecognized(s.to_owned())),
        }
    } else if chars_eq(&disc, &d_error) {
        match parse_tail_one(&chars, p1, &key_message) {
            Some(v) => Ok(ServerMessage::Error { message: string_from_chars(&v) }),
            None => Err(DecodeError::Unrecognized(s.to_owned())),
        }
    } else if chars_eq(&disc, &d_auth) {
        match parse_tail_one(&chars, p1, &key_message) {
            Some(v) => Ok(ServerMessage::AuthFailed { message: string_from_chars(&v) }),
            None => Err(DecodeError::Unrecognized(s.to_owned())),
        }
    } else if chars_eq(&disc, &d_colour) {
        match parse_tail_one(&chars, p1, &key_color) {
            Some(v) => Ok(ServerMessage::ColorShift { color: string_from_chars(&v) }),
            None => Err(DecodeError::Unrecognized(s.to_owned())),
        }
    } else if chars_eq(&disc, &d_bg) {
        match parse_tail_one(&chars, p1, &key_color) {
            Some(v) => Ok(ServerMessage::BackgroundShift { color: string_from_chars(&v) }),
            None => Err(DecodeError::Unrecognized(s.to_owned())),
        }
    } else if chars_eq(&disc, &d_clear) {
        if only_rbrace(&chars, p1) {
            Ok(ServerMessage::ChatClear)
        } else {
            Err(DecodeError::Unrecognized(s.to_owned()))
        }
    } else if chars_eq(&disc, &d_kicked) {
        match parse_tail_one(&chars, p1, &key_message) {
            Some(v) => Ok(ServerMessage::Kicked { message: string_from_chars(&v) }),
            None => Err(DecodeError::Unrecognized(s.to_owned())),
        }
    } else {
        Err(DecodeError::Unrecognized(s.to_owned()))
    }
}

/// Encodes an outbound command as its canonical wire frame.
pub fn encode(m: &ClientMessage) -> (r: String)
    ensures
        r@ == client_frame(m@),
{
    let mut out: Vec<char> = Vec::new();
    match m {
        ClientMessage::Join { username, chatname, password } => {
            let head = vec!['{', '"', 't', 'y', 'p', 'e', '"', ':', '"', 'j', 'o', 'i', 'n', '"'];
            proof {
                assert(head@ =~= lit_head() + disc_join() + seq!['"']);
            }
            push_lit(&mut out, &head);
            let k1 = vec![',', '"', 'u', 's', 'e', 'r', 'n', 'a', 'm', 'e', '"', ':', '"'];
            proof {
                assert(k1@ =~= lit_username());
            }
            push_lit(&mut out, &k1);
            let u = crate::text::chars_of(username.as_str());
            push_escaped(&mut out, &u);
            let k2 = vec!['"', ',', '"', 'c', 'h', 'a', 't', 'n', 'a', 'm', 'e', '"', ':', '"'];
            proof {
                assert(k2@ =~= seq!['"'] + lit_chatname());
            }
            push_lit(&mut out, &k2);
            let c = crate::text::chars_of(chatname.as_str());
            push_escaped(&mut out, &c);
            let k3 = vec!['"', ',', '"', 'p', 'a', 's', 's', 'w', 'o', 'r', 'd', '"', ':', '"'];
            proof {
                assert(k3@ =~= seq!['"'] + lit_password());
            }
            push_lit(&mut out, &k3);
            let p = crate::text::chars_of(password.as_str());
            push_escaped(&mut out, &p);
            let end = vec!['"', '}'];
            proof {
                assert(end@ =~= seq!['"', '}']);
            }
            push_lit(&mut out, &end);
            proof {
                assert(out@ =~= client_frame(m@));
            }
        },
        ClientMessage::Message { content } => {
            let head = vec!['{', '"', 't', 'y', 'p', 'e', '"', ':', '"', 'm', 'e', 's', 's', 'a',
                'g', 'e', '"'];
            proof {
                assert(head@ =~= lit_head() + disc_message() + seq!['"']);
            }
            push_lit(&mut out, &head);
            let k1 = vec![',', '"', 'c', 'o', 'n', 't', 'e', 'n', 't', '"', ':', '"'];
            proof {
                assert(k1@ =~= lit_content());
            }
            push_lit(&mut out, &k1);
            let v = crate::text::chars_of(content.as_str());
            push_escaped(&mut out, &v);
            let end = vec!['"', '}'];
            proof {
                assert(end@ =~= seq!['"', '}']);
            }
            push_lit(&mut out, &end);
            proof {
                assert(out@ =~= client_frame(m@));
            }
        },
    }
    string_from_chars(&out)
}

// ---------------------------------------------------------------------
// The round-trip law: every canonical inbound frame decodes to exactly
// the event it was built from.
// ---------------------------------------------------------------------
/// Stripping a prefix off the very concatenation that starts with it
/// leaves the remainder.
proof fn lemma_strip_prefix_concat(p: Seq<char>, r: Seq<char>)
    ensures
        strip_prefix(p + r, p) == Some(r),
{
    assert((p + r).take(p.len() as int) =~= p);
    assert((p + r).skip(p.len() as int) =~= r);
}

/// A token without quotes or backslashes, followed by a closing quote,
/// scans to exactly that token.
proof fn lemma_scan_plain_lit(d: Seq<char>, rest: Seq<char>)
    requires
        forall|i: int| 0 <= i < d.len() ==> d[i] != '"' && d[i] != '\\',
    ensures
        scan_plain(d + seq!['"'] + rest) == Some((d, rest)),
    decreases d.len(),
{
    let s = d + seq!['"'] + rest;
    if d.len() == 0 {
        assert(s[0] == '"');
        assert(s.drop_first() =~= rest);
        assert(Seq::<char>::empty() =~= d);
    } else {
        assert(s[0] == d[0]);
        lemma_scan_plain_lit(d.drop_first(), rest);
        assert(s.drop_first() =~= d.drop_first() + seq!['"'] + rest);
        assert(seq![d[0]] + d.drop_first() =~= d);
    }
}

/// A control character survives the round trip through its code.
proof fn lemma_char_code_round(c: char)
    requires
        (c as u32) < 32,
    ensures
        ctl_char((c as u32) as int) == c,
{
}

/// A small code names the character with exactly that code.
proof fn lemma_ctl_char_code(v: int)
    requires
        0 <= v < 32,
    ensures
        (ctl_char(v) as u32) as int == v,
{
}

/// The escaped form of a value, followed by a closing quote, scans back
/// to exactly that value.
proof fn lemma_scan_string_esc(v: Seq<char>, rest: Seq<char>)
    ensures
        scan_string(esc(v) + seq!['"'] + rest) == Some((v, rest)),
    decreases v.len(),
{
    let s = esc(v) + seq!['"'] + rest;
    if v.len() == 0 {
        assert(s[0] == '"');
        assert(s.drop_first() =~= rest);
        assert(Seq::<char>::empty() =~= v);
    } else {
        let c = v[0];
        let v1 = v.drop_first();
        lemma_scan_string_esc(v1, rest);
        assert(esc(v) == esc_char(c) + esc(v1));
        if c == '"' || c == '\\' || c == '\n' || c == '\r' || c == '\t' {
            assert(esc_char(c).len() == 2);
            assert(esc_char(c)[0] == '\\');
            assert(s[0] == '\\');
            assert(s.len() >= 2);
            assert(s[1] == esc_char(c)[1]);
            assert(unescape_char(esc_char(c)[1]) == Some(c));
            assert(s.skip(2) =~= esc(v1) + seq!['"'] + rest);
            assert(seq![c] + v1 =~= v);
        } else if is_ctl(c) {
            let code = (c as u32) as int;
            assert((c as u32) < 32);
            assert(s =~= esc_char(c) + (esc(v1) + seq!['"'] + rest));
            assert(esc_char(c).len() == 6);
            assert(s.len() >= 6);
            assert(s[0] == '\\');
            assert(s[1] == 'u');
            assert(s[2] == '0');
            assert(s[3] == '0');
            assert(s[4] == hex_char(code / 16));
            assert(s[5] == hex_char(code % 16));
            assert(0 <= code / 16 < 16);
            assert(0 <= code % 16 < 16);
            assert(hex_val(hex_char(code / 16)) == code / 16);
            assert(hex_val(hex_char(code % 16)) == code % 16);
            assert(hex_val(s[4]) * 16 + hex_val(s[5]) == code);
            lemma_char_code_round(c);
            assert(ctl_char(code) == c);
            assert(ctl_char(9) == '\t');
            assert(ctl_char(10) == '\n');
            assert(ctl_char(13) == '\r');
            assert(ctl_code(code));
            assert(s.skip(6) =~= esc(v1) + seq!['"'] + rest);
            assert(seq![c] + v1 =~= v);
        } else {
            assert(esc_char(c) =~= seq![c]);
            assert(s[0] == c);
            assert(c != '"' && c != '\\');
            assert((c as u32) >= 32);
            assert(s.drop_first() =~= esc(v1) + seq!['"'] + rest);
            assert(seq![c] + v1 =~= v);
        }
    }
}

/// A one-field tail parses back to its value.
proof fn lemma_tail_one(key: Seq<char>, v: Seq<char>)
    ensures
        tail_one(key + esc(v) + seq!['"', '}'], key) == Some(v),
{
    let rest = key + esc(v) + seq!['"', '}'];
    assert(rest =~= key + (esc(v) + seq!['"', '}']));
    lemma_strip_prefix_concat(key, esc(v) + seq!['"', '}']);
    assert(esc(v) + seq!['"', '}'] =~= esc(v) + seq!['"'] + seq!['}']);
    lemma_scan_string_esc(v, seq!['}']);
}

/// A two-field tail parses back to its two values.
#[verifier::rlimit(50)]
proof fn lemma_tail_two(key1: Seq<char>, v1: Seq<char>, key2: Seq<char>, v2: Seq<char>)
    ensures
        tail_two(key1 + esc(v1) + seq!['"'] + key2 + esc(v2) + seq!['"', '}'], key1, key2) == Some(
            (v1, v2),
        ),
{
    let tail2 = key2 + esc(v2) + seq!['"', '}'];
    let rest = key1 + esc(v1) + seq!['"'] + key2 + esc(v2) + seq!['"', '}'];
    assert(rest =~= key1 + (esc(v1) + seq!['"'] + tail2));
    lemma_strip_prefix_concat(key1, esc(v1) + seq!['"'] + tail2);
    lemma_scan_string_esc(v1, tail2);
    assert(tail2 =~= key2 + (esc(v2) + seq!['"', '}']));
    lemma_strip_prefix_concat(key2, esc(v2) + seq!['"', '}']);
    assert(esc(v2) + seq!['"', '}'] =~= esc(v2) + seq!['"'] + seq!['}']);
    lemma_scan_string_esc(v2, seq!['}']);
}

/// A discriminant literal holds neither quotes nor backslashes.
spec fn plain_disc(d: Seq<char>) -> bool {
    forall|i: int| 0 <= i < d.len() ==> d[i] != '"' && d[i] != '\\'
}

/// Decoding a one-field frame built from `disc`, `key` and `v` finds
/// exactly those parts.
proof fn lemma_decode_frame_one(disc: Seq<char>, key: Seq<char>, v: Seq<char>)
    requires
        plain_disc(disc),
    ensures
        strip_prefix(frame_one(disc, key, v), lit_head()) is Some,
        scan_plain(strip_prefix(frame_one(disc, key, v), lit_head())->0) == Some(
            (disc, key + esc(v) + seq!['"', '}']),
        ),
        tail_one(key + esc(v) + seq!['"', '}'], key) == Some(v),
{
    let s = frame_one(disc, key, v);
    let after_head = disc + seq!['"'] + (key + esc(v) + seq!['"', '}']);
    assert(s =~= lit_head() + after_head);
    lemma_strip_prefix_concat(lit_head(), after_head);
    lemma_scan_plain_lit(disc, key + esc(v) + seq!['"', '}']);
    lemma_tail_one(key, v);
}

/// The round-trip law for inbound events: the canonical frame of any
/// event decodes to exactly that event.
#[verifier::rlimit(50)]
pub proof fn lemma_decode_server_frame(m: ServerMessageView)
    ensures
        decode_spec(server_frame(m)) == Some(m),
{
    match m {
        ServerMessageView::Join { username } => {
            lemma_decode_frame_one(disc_join(), lit_username(), username);
        },
        ServerMessageView::Leave { username } => {
            lemma_decode_frame_one(disc_leave(), lit_username(), username);
            assert(disc_leave()[0] != disc_join()[0]);
        },
        ServerMessageView::Message { username, content } => {
            let s = server_frame(m);
            let tail = lit_username() + esc(username) + seq!['"'] + lit_content() + esc(content)
                + seq!['"', '}'];
            let after_head = disc_message() + seq!['"'] + tail;
            assert(s =~= lit_head() + after_head);
            lemma_strip_prefix_concat(lit_head(), after_head);
            lemma_scan_plain_lit(disc_message(), tail);
            lemma_tail_two(lit_username(), username, lit_content(), content);
        },
        ServerMessageView::Error { message } => {
            lemma_decode_frame_one(disc_error(), lit_message(), message);
            assert(disc_error()[0] != disc_leave()[0]);
        },
        ServerMessageView::AuthFailed { message } => {
            lemma_decode_frame_one(disc_auth_failed(), lit_message(), message);
        },
        ServerMessageView::ColorShift { color } => {
            lemma_decode_frame_one(disc_colourshift(), lit_color(), color);
            assert(disc_colourshift()[0] != disc_auth_failed()[0]);
        },
        ServerMessageView::BackgroundShift { color } => {
            lemma_decode_frame_one(disc_bgshift(), lit_color(), color);
            assert(disc_bgshift()[0] != disc_message()[0]);
        },
        ServerMessageView::ChatClear => {
            let s = server_frame(m);
            let after_head = disc_chatclear() + seq!['"'] + seq!['}'];
            assert(s =~= lit_head() + after_head);
            lemma_strip_prefix_concat(lit_head(), after_head);
            lemma_scan_plain_lit(disc_chatclear(), seq!['}']);
        },
        ServerMessageView::Kicked { message } => {
            lemma_decode_frame_one(disc_kicked(), lit_message(), message);
        },
    }
}

// ---------------------------------------------------------------------
// The converse: a frame that decodes at all is exactly the canonical
// frame of its event, fields verbatim.
// ---------------------------------------------------------------------
/// A successful escape-free scan can only have consumed the token, a
/// closing quote, and nothing else before the remainder.
proof fn lemma_scan_plain_sound(s: Seq<char>)
    ensures
        scan_plain(s) matches Some(p) ==> s == p.0 + seq!['"'] + p.1 && plain_disc(p.0),
    decreases s.len(),
{
    if s.len() == 0 {
    } else if s[0] == '"' {
        assert(s =~= Seq::<char>::empty() + seq!['"'] + s.drop_first());
    } else if s[0] == '\\' {
    } else {
        lemma_scan_plain_sound(s.drop_first());
        match scan_plain(s.drop_first()) {
            Some((t, r)) => {
                assert(s =~= seq![s[0]] + s.drop_first());
                assert(s =~= (seq![s[0]] + t) + seq!['"'] + r);
                assert forall|i: int|
                    0 <= i < (seq![s[0]] + t).len() implies (seq![s[0]] + t)[i] != '"' && (
                seq![s[0]] + t)[i] != '\\' by {
                    if i > 0 {
                        assert((seq![s[0]] + t)[i] == t[i - 1]);
                    }
                }
            },
            None => {},
        }
    }
}

/// A successful string scan can only have consumed the escaped form of
/// its value and the closing quote.
proof fn lemma_scan_string_sound(s: Seq<char>)
    ensures
        scan_string(s) matches Some(p) ==> s == esc(p.0) + seq!['"'] + p.1,
    decreases s.len(),
{
    if s.len() == 0 {
    } else if s[0] == '"' {
        assert(esc(Seq::<char>::empty()) == Seq::<char>::empty());
        assert(s =~= esc(Seq::<char>::empty()) + seq!['"'] + s.drop_first());
    } else if s[0] == '\\' {
        if s.len() >= 2 && s[1] == 'u' {
            if s.len() >= 6 && s[2] == '0' && s[3] == '0' && hex_val(s[4]) >= 0 && hex_val(s[5])
                >= 0 && ctl_code(hex_val(s[4]) * 16 + hex_val(s[5])) {
                let d1 = hex_val(s[4]);
                let d2 = hex_val(s[5]);
                let code = d1 * 16 + d2;
                let c = ctl_char(code);
                lemma_scan_string_sound(s.skip(6));
                match scan_string(s.skip(6)) {
                    Some((t, r)) => {
                        assert((seq![c] + t)[0] == c);
                        assert((seq![c] + t).drop_first() =~= t);
                        assert(esc(seq![c] + t) == esc_char(c) + esc(t));
                        lemma_ctl_char_code(code);
                        assert((c as u32) as int == code);
                        assert(ctl_char(9) == '\t');
                        assert(ctl_char(10) == '\n');
                        assert(ctl_char(13) == '\r');
                        assert(is_ctl(c));
                        assert(code / 16 == d1);
                        assert(code % 16 == d2);
                        assert(hex_char(hex_val(s[4])) == s[4]);
                        assert(hex_char(hex_val(s[5])) == s[5]);
                        assert(esc_char(c) =~= seq![s[0], s[1], s[2], s[3], s[4], s[5]]);
                        assert(s =~= seq![s[0], s[1], s[2], s[3], s[4], s[5]] + s.skip(6));
                        assert(s =~= (esc_char(c) + esc(t)) + seq!['"'] + r);
                    },
                    None => {},
                }
            }
        } else if s.len() >= 2 && unescape_char(s[1]) is Some {
            let c = unescape_char(s[1])->0;
            lemma_scan_string_sound(s.skip(2));
            match scan_string(s.skip(2)) {
                Some((t, r)) => {
                    assert((seq![c] + t)[0] == c);
                    assert((seq![c] + t).drop_first() =~= t);
                    assert(esc(seq![c] + t) == esc_char(c) + esc(t));
                    assert(esc_char(c) =~= seq![s[0], s[1]]);
                    assert(s =~= seq![s[0], s[1]] + s.skip(2));
                    assert(s =~= (esc_char(c) + esc(t)) + seq!['"'] + r);
                },
                None => {},
            }
        }
    } else if (s[0] as u32) < 32 {
    } else {
        lemma_scan_string_sound(s.drop_first());
        match scan_string(s.drop_first()) {
            Some((t, r)) => {
                assert((seq![s[0]] + t)[0] == s[0]);
                assert((seq![s[0]] + t).drop_first() =~= t);
                assert(esc(seq![s[0]] + t) == esc_char(s[0]) + esc(t));
                assert(!is_ctl(s[0]));
                assert(esc_char(s[0]) =~= seq![s[0]]);
                assert(s =~= seq![s[0]] + s.drop_first());
                assert(s =~= (esc_char(s[0]) + esc(t)) + seq!['"'] + r);
            },
            None => {},
        }
    }
}

/// A successful one-field tail parse pins the tail's exact text.
proof fn lemma_tail_one_sound(rest: Seq<char>, key: Seq<char>)
    ensures
        tail_one(rest, key) matches Some(v) ==> rest == key + esc(v) + seq!['"', '}'],
{
    match strip_prefix(rest, key) {
        Some(r1) => {
            assert(rest =~= key + r1);
            lemma_scan_string_sound(r1);
            match scan_string(r1) {
                Some((v, r2)) => {
                    if r2 == seq!['}'] {
                        assert(rest =~= key + esc(v) + seq!['"', '}']);
                    }
                },
                None => {},
            }
        },
        None => {},
    }
}

/// A successful two-field tail parse pins the tail's exact text.
#[verifier::rlimit(50)]
proof fn lemma_tail_two_sound(rest: Seq<char>, key1: Seq<char>, key2: Seq<char>)
    ensures
        tail_two(rest, key1, key2) matches Some(p) ==> rest == key1 + esc(p.0) + seq!['"'] + key2
            + esc(p.1) + seq!['"', '}'],
{
    match strip_prefix(rest, key1) {
        Some(r1) => {
            assert(rest =~= key1 + r1);
            lemma_scan_string_sound(r1);
            match scan_string(r1) {
                Some((v1, r2)) => {
                    match strip_prefix(r2, key2) {
                        Some(r3) => {
                            assert(r2 =~= key2 + r3);
                            lemma_scan_string_sound(r3);
                            match scan_string(r3) {
                                Some((v2, r4)) => {
                                    if r4 == seq!['}'] {
                                        assert(rest =~= key1 + esc(v1) + seq!['"'] + key2 + esc(
                                            v2,
                                        ) + seq!['"', '}']);
                                    }
                                },
                                None => {},
                            }
                        },
                        None => {},
                    }
                },
                None => {},
            }
        },
        None => {},
    }
}

/// The soundness law of the codec: any text that decodes to an event is
/// that event's canonical frame, its fields carried verbatim. Together
/// with the round-trip law, decoding succeeds on exactly the canonical
/// frames.
#[verifier::rlimit(50)]
pub proof fn lemma_decode_spec_sound(s: Seq<char>, m: ServerMessageView)
    requires
        decode_spec(s) == Some(m),
    ensures
        s == server_frame(m),
{
    let r0 = strip_prefix(s, lit_head())->0;
    assert(s =~= lit_head() + r0);
    lemma_scan_plain_sound(r0);
    let p = scan_plain(r0)->0;
    let disc = p.0;
    let rest = p.1;
    assert(r0 =~= disc + seq!['"'] + rest);
    if disc == disc_join() {
        lemma_tail_one_sound(rest, lit_username());
        assert(s =~= frame_one(disc_join(), lit_username(), tail_one(rest, lit_username())->0));
    } else if disc == disc_leave() {
        lemma_tail_one_sound(rest, lit_username());
        assert(s =~= frame_one(disc_leave(), lit_username(), tail_one(rest, lit_username())->0));
    } else if disc == disc_message() {
        lemma_tail_two_sound(rest, lit_username(), lit_content());
        let q = tail_two(rest, lit_username(), lit_content())->0;
        assert(s =~= frame_two(disc_message(), lit_username(), q.0, lit_content(), q.1));
    } else if disc == disc_error() {
        lemma_tail_one_sound(rest, lit_message());
        assert(s =~= frame_one(disc_error(), lit_message(), tail_one(rest, lit_message())->0));
    } else if disc == disc_auth_failed() {
        lemma_tail_one_sound(rest, lit_message());
        assert(s =~= frame_one(disc_auth_failed(), lit_message(), tail_one(rest, lit_message())->0));
    } else if disc == disc_colourshift() {
        lemma_tail_one_sound(rest, lit_color());
        assert(s =~= frame_one(disc_colourshift(), lit_color(), tail_one(rest, lit_color())->0));
    } else if disc == disc_bgshift() {
        lemma_tail_one_sound(rest, lit_color());
        assert(s =~= frame_one(disc_bgshift(), lit_color(), tail_one(rest, lit_color())->0));
    } else if disc == disc_chatclear() {
        assert(rest == seq!['}']);
        assert(s =~= frame_zero(disc_chatclear()));
    } else if disc == disc_kicked() {
        lemma_tail_one_sound(rest, lit_message());
        assert(s =~= frame_one(disc_kicked(), lit_message(), tail_one(rest, lit_message())->0));
    }
}

} // verus!
