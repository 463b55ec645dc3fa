//! Character-level text helpers: ASCII lower-casing, whitespace
//! trimming, and the reserved-name tests used to recognize the
//! service's own identity.

use vstd::prelude::*;
use vstd::std_specs::iter::IteratorSpec;

verus! {

/// ASCII lower-casing of one character; everything outside `'A'..='Z'`
/// is left unchanged.
pub open spec fn lower_char(c: char) -> char {
    if 'A' <= c && c <= 'Z' {
        ((c as u8) + 32) as char
    } else {
        c
    }
}

/// ASCII lower-casing of a whole character sequence.
pub open spec fn lower_seq(s: Seq<char>) -> Seq<char> {
    s.map_values(|c: char| lower_char(c))
}

/// Unicode whitespace, the characters stripped when a name is trimmed.
pub open spec fn is_space(c: char) -> bool {
    c == ' ' || c == '\t' || c == '\n' || c == '\r' || c == '\u{b}' || c == '\u{c}' || c
        == '\u{85}' || c == '\u{a0}' || c == '\u{1680}' || ('\u{2000}' <= c && c <= '\u{200a}')
        || c == '\u{2028}' || c == '\u{2029}' || c == '\u{202f}' || c == '\u{205f}' || c
        == '\u{3000}'
}

/// Drops leading whitespace.
pub open spec fn trim_front(s: Seq<char>) -> Seq<char>
    decreases s.len(),
{
    if s.len() > 0 && is_space(s[0]) {
        trim_front(s.drop_first())
    } else {
        s
    }
}

/// Drops trailing whitespace.
pub open spec fn trim_back(s: Seq<char>) -> Seq<char>
    decreases s.len(),
{
    if s.len() > 0 && is_space(s[s.len() - 1]) {
        trim_back(s.drop_last())
    } else {
        s
    }
}

/// A name normalized for comparison: trimmed, then ASCII lower-cased.
pub open spec fn normalized(s: Seq<char>) -> Seq<char> {
    lower_seq(trim_back(trim_front(s)))
}

/// The reserved identity of the service itself: a name whose normalized
/// form is `"server"`.
pub open spec fn is_reserved_name(s: Seq<char>) -> bool {
    normalized(s) == seq!['s', 'e', 'r', 'v', 'e', 'r']
}

/// Case-insensitive equality with the reserved name, without any
/// trimming: the form used when a chat message's sender is tested for
/// being the service itself. (Session identities are normalized first;
/// a message sender is taken as it stands on the wire.)
pub open spec fn is_server_name(s: Seq<char>) -> bool {
    lower_seq(s) == seq!['s', 'e', 'r', 'v', 'e', 'r']
}

/// A name is blank when trimming leaves nothing; blank fields are
/// replaced by their defaults when a session identity is formed.
pub open spec fn is_blank(s: Seq<char>) -> bool {
    trim_back(trim_front(s)).len() == 0
}

/// Collects the characters of a string slice into a vector, so that the
/// parsing code can index them directly.
pub fn chars_of(s: &str) -> (v: Vec<char>)
    ensures
        v@ == s@,
{
    broadcast use vstd::string::group_string_axioms;

    let mut v: Vec<char> = Vec::new();
    let mut it = s.chars();
    loop
        invariant_except_break
            it.obeys_prophetic_iter_laws(),
            IteratorSpec::decrease(&it) is Some,
            v@ + it.remaining() == s@,
        ensures
            v@ == s@,
        decreases IteratorSpec::decrease(&it)->0,
    {
        match it.next() {
            Some(c) => {
                v.push(c);
            },
            None => {
                proof {
                    assert(it.remaining().len() == 0);
                    assert(v@ =~= s@);
                }
                break ;
            },
        }
    }
    v
}

/// Relies on `core::iter::Iterator::collect` for `String`: the collected
/// string holds exactly the characters of the vector, in order.
#[verifier::external_body]
pub fn string_from_chars(v: &Vec<char>) -> (s: String)
    ensures
        s@ == v@,
{
    v.iter().collect()
}

/// ASCII lower-casing of one character, as executable code.
pub fn lower_char_exec(c: char) -> (r: char)
    ensures
        r == lower_char(c),
{
    if 'A' <= c && c <= 'Z' {
        ((c as u8) + 32) as char
    } else {
        c
    }
}

/// Trims whitespace from both ends and lower-cases the rest.
pub fn normalize(s: &str) -> (r: Vec<char>)
    ensures
        r@ == normalized(s@),
{
    let chars = chars_of(s);
    proof {
        assert(chars@.subrange(0, chars@.len() as int) =~= chars@);
    }
    let mut start: usize = 0;
    let mut end: usize = chars.len();
    while start < end && is_space_exec(chars[start])
        invariant
            start <= end <= chars@.len(),
            trim_front(chars@) == trim_front(chars@.subrange(start as int, chars@.len() as int)),
            end == chars@.len(),
        decreases end - start,
    {
        proof {
            assert(chars@.subrange(start as int, chars@.len() as int).drop_first() =~= chars@
                .subrange(start as int + 1, chars@.len() as int));
        }
        start = start + 1;
    }
    proof {
        assert(trim_front(chars@.subrange(start as int, end as int)) == chars@.subrange(
            start as int,
            end as int,
        )) by {
            if start < end {
                assert(!is_space(chars@.subrange(start as int, end as int)[0]));
            }
        }
    }
    while start < end && is_space_exec(chars[end - 1])
        invariant
            start <= end <= chars@.len(),
            trim_back(trim_front(chars@)) == trim_back(chars@.subrange(start as int, end as int)),
        decreases end,
    {
        proof {
            assert(chars@.subrange(start as int, end as int).drop_last() =~= chars@.subrange(
                start as int,
                end as int - 1,
            ));
        }
        end = end - 1;
    }
    proof {
        assert(trim_back(chars@.subrange(start as int, end as int)) == chars@.subrange(
            start as int,
            end as int,
        )) by {
            let t = chars@.subrange(start as int, end as int);
            if t.len() > 0 {
                assert(!is_space(t[t.len() - 1]));
            }
        }
    }
    let mut r: Vec<char> = Vec::new();
    let mut i: usize = start;
    while i < end
        invariant
            start <= i <= end <= chars@.len(),
            r@ == lower_seq(chars@.subrange(start as int, i as int)),
        decreases end - i,
    {
        r.push(lower_char_exec(chars[i]));
        proof {
            assert(lower_seq(chars@.subrange(start as int, i as int)).push(lower_char(chars@[
            i as int])) =~= lower_seq(chars@.subrange(start as int, i as int + 1)));
        }
        i = i + 1;
    }
    r
}

/// Unicode whitespace test, as executable code.
pub fn is_space_exec(c: char) -> (r: bool)
    ensures
        r == is_space(c),
{
    c == ' ' || c == '\t' || c == '\n' || c == '\r' || c == '\u{b}' || c == '\u{c}' || c
        == '\u{85}' || c == '\u{a0}' || c == '\u{1680}' || ('\u{2000}' <= c && c <= '\u{200a}')
        || c == '\u{2028}' || c == '\u{2029}' || c == '\u{202f}' || c == '\u{205f}' || c
        == '\u{3000}'
}

/// Whether the normalized form of `s` is the reserved name `"server"`.
pub fn is_reserved(s: &str) -> (r: bool)
    ensures
        r == is_reserved_name(s@),
{
    let n = normalize(s);
    if n.len() != 6 {
        proof {
            assert(normalized(s@) != seq!['s', 'e', 'r', 'v', 'e', 'r']);
        }
        return false;
    }
    let r = n[0] == 's' && n[1] == 'e' && n[2] == 'r' && n[3] == 'v' && n[4] == 'e' && n[5] == 'r';
    proof {
        if r {
            assert(n@ =~= seq!['s', 'e', 'r', 'v', 'e', 'r']);
        } else {
            assert(n@ != seq!['s', 'e', 'r', 'v', 'e', 'r']);
        }
    }
    r
}

/// Whether `s` case-insensitively equals the reserved name, untrimmed.
pub fn is_server_name_exec(s: &str) -> (r: bool)
    ensures
        r == is_server_name(s@),
{
    let chars = chars_of(s);
    if chars.len() != 6 {
        proof {
            assert(lower_seq(s@).len() == s@.len());
        }
        return false;
    }
    let mut lowered: Vec<char> = Vec::new();
    let mut i: usize = 0;
    while i < chars.len()
        invariant
            chars@ == s@,
            i <= chars@.len(),
            lowered@ == lower_seq(chars@.subrange(0, i as int)),
        decreases chars@.len() - i,
    {
        lowered.push(lower_char_exec(chars[i]));
        proof {
            assert(lower_seq(chars@.subrange(0, i as int)).push(lower_char(chars@[i as int])) =~=
                lower_seq(chars@.subrange(0, i as int + 1)));
        }
        i = i + 1;
    }
    proof {
        assert(chars@.subrange(0, chars@.len() as int) =~= chars@);
    }
    let r = lowered[0] == 's' && lowered[1] == 'e' && lowered[2] == 'r' && lowered[3] == 'v'
        && lowered[4] == 'e' && lowered[5] == 'r';
    proof {
        if r {
            assert(lowered@ =~= seq!['s', 'e', 'r', 'v', 'e', 'r']);
        } else {
            assert(lowered@ != seq!['s', 'e', 'r', 'v', 'e', 'r']);
        }
    }
    r
}

/// Whether trimming `s` leaves nothing.
pub fn is_blank_exec(s: &str) -> (r: bool)
    ensures
        r == is_blank(s@),
{
    let chars = chars_of(s);
    proof {
        assert(chars@.subrange(0, chars@.len() as int) =~= chars@);
    }
    let mut i: usize = 0;
    while i < chars.len() && is_space_exec(chars[i])
        invariant
            i <= chars@.len(),
            trim_front(chars@) == trim_front(chars@.subrange(i as int, chars@.len() as int)),
        decreases chars@.len() - i,
    {
        proof {
            assert(chars@.subrange(i as int, chars@.len() as int).drop_first() =~= chars@.subrange(
                i as int + 1,
                chars@.len() as int,
            ));
        }
        i = i + 1;
    }
    let blank = i == chars.len();
    proof {
        let rest = chars@.subrange(i as int, chars@.len() as int);
        if blank {
            assert(rest =~= Seq::<char>::empty());
            assert(trim_back(trim_front(chars@)).len() == 0);
        } else {
            assert(!is_space(rest[0]));
            assert(trim_front(chars@) == rest);
            lemma_trim_back_keeps_front(rest);
        }
    }
    blank
}

/// Trimming the back of a sequence whose first character is not
/// whitespace leaves a non-empty sequence starting with that character.
proof fn lemma_trim_back_keeps_front(s: Seq<char>)
    requires
        s.len() > 0,
        !is_space(s[0]),
    ensures
        trim_back(s).len() > 0,
        trim_back(s)[0] == s[0],
    decreases s.len(),
{
    if s.len() > 0 && is_space(s[s.len() - 1]) {
        lemma_trim_back_keeps_front(s.drop_last());
    }
}

/// Whether two character vectors hold the same characters.
pub fn chars_eq(a: &Vec<char>, b: &Vec<char>) -> (r: bool)
    ensures
        r == (a@ == b@),
{
    if a.len() != b.len() {
        return false;
    }
    let mut i: usize = 0;
    while i < a.len()
        invariant
            a@.len() == b@.len(),
            i <= a@.len(),
            forall|k: int| 0 <= k < i ==> a@[k] == b@[k],
        decreases a@.len() - i,
    {
        if a[i] != b[i] {
            return false;
        }
        i = i + 1;
    }
    proof {
        assert(a@ =~= b@);
    }
    true
}

} // verus!
