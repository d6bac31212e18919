//! JSON text: string literals, the wire form of a log message, and the framing
//! of JSON objects out of received text.

use vstd::prelude::*;
use crate::text::{chars_of, digit_char, string_from_chars};

verus! {

/// The lower-case hexadecimal digit for `d < 16`.
pub open spec fn hex_digit(d: nat) -> char {
    if d < 10 {
        digit_char(d)
    } else {
        ((d + 87) as u8) as char
    }
}

/// How one character is written inside a JSON string literal.
pub open spec fn json_escape_char(c: char) -> Seq<char> {
    if c == '"' {
        seq!['\\', '"']
    } else if c == '\\' {
        seq!['\\', '\\']
    } else if c == '\u{8}' {
        seq!['\\', 'b']
    } else if c == '\t' {
        seq!['\\', 't']
    } else if c == '\n' {
        seq!['\\', 'n']
    } else if c == '\u{c}' {
        seq!['\\', 'f']
    } else if c == '\r' {
        seq!['\\', 'r']
    } else if (c as u32) < 0x20 {
        seq!['\\', 'u', '0', '0', hex_digit((c as nat) / 16), hex_digit((c as nat) % 16)]
    } else {
        seq![c]
    }
}

/// The characters of `s`, each escaped for a JSON string literal.
pub open spec fn json_escape(s: Seq<char>) -> Seq<char>
    decreases s.len(),
{
    if s.len() == 0 {
        Seq::empty()
    } else {
        json_escape(s.drop_last()) + json_escape_char(s.last())
    }
}

/// The JSON string literal for `s`: quotes around its escaped characters.
pub open spec fn json_string_literal(s: Seq<char>) -> Seq<char> {
    seq!['"'] + json_escape(s) + seq!['"']
}

/// The value of a hexadecimal digit, in either case.
pub open spec fn hex_value(c: char) -> Option<nat> {
    let u = c as u32;
    if 0x30 <= u <= 0x39 {
        Some((u - 0x30) as nat)
    } else if 0x61 <= u <= 0x66 {
        Some((u - 0x57) as nat)
    } else if 0x41 <= u <= 0x46 {
        Some((u - 0x37) as nat)
    } else {
        None
    }
}

/// The number that the four hexadecimal digits `d` write.
pub open spec fn hex4_value(d: Seq<char>) -> Option<nat> {
    match (hex_value(d[0]), hex_value(d[1]), hex_value(d[2]), hex_value(d[3])) {
        (Some(a), Some(b), Some(c), Some(e)) => Some(a * 4096 + b * 256 + c * 16 + e),
        _ => None,
    }
}

/// The character that a backslash followed by `e` stands for, for the
/// one-letter escapes of JSON.
pub open spec fn simple_escape(e: char) -> Option<char> {
    if e == '"' {
        Some('"')
    } else if e == '\\' {
        Some('\\')
    } else if e == '/' {
        Some('/')
    } else if e == 'b' {
        Some('\u{8}')
    } else if e == 'f' {
        Some('\u{c}')
    } else if e == 'n' {
        Some('\n')
    } else if e == 'r' {
        Some('\r')
    } else if e == 't' {
        Some('\t')
    } else {
        None
    }
}

/// `c` followed by the text `rest` decodes to, if `rest` decodes.
pub open spec fn prepend_decoded(c: char, rest: Option<Seq<char>>) -> Option<Seq<char>> {
    match rest {
        Some(r) => Some(seq![c] + r),
        None => None,
    }
}

/// The characters that the inside of a JSON string literal stands for, as
/// RFC 8259 reads it: `None` when it holds an unescaped quote or control
/// character, an unknown escape, or a `\u` escape of a lone surrogate.
pub open spec fn json_unescape(t: Seq<char>) -> Option<Seq<char>>
    decreases t.len(),
{
    if t.len() == 0 {
        Some(Seq::empty())
    } else if t[0] == '"' || (t[0] as u32) < 0x20 {
        None
    } else if t[0] != '\\' {
        prepend_decoded(t[0], json_unescape(t.drop_first()))
    } else if t.len() < 2 {
        None
    } else if simple_escape(t[1]) is Some {
        prepend_decoded(simple_escape(t[1])->0, json_unescape(t.skip(2)))
    } else if t[1] == 'u' && t.len() >= 6 {
        match hex4_value(t.subrange(2, 6)) {
            None => None,
            Some(u) => if 0xD800 <= u < 0xDC00 {
                if t.len() >= 12 && t[6] == '\\' && t[7] == 'u' {
                    match hex4_value(t.subrange(8, 12)) {
                        Some(w) => if 0xDC00 <= w < 0xE000 {
                            prepend_decoded(
                                ((0x10000 + (u - 0xD800) * 0x400 + (w - 0xDC00)) as u32) as char,
                                json_unescape(t.skip(12)),
                            )
                        } else {
                            None
                        },
                        None => None,
                    }
                } else {
                    None
                }
            } else if 0xDC00 <= u < 0xE000 {
                None
            } else {
                prepend_decoded((u as u32) as char, json_unescape(t.skip(6)))
            },
        }
    } else {
        None
    }
}

/// The text that the JSON string literal `lit` stands for, if it is one.
pub open spec fn json_string_value(lit: Seq<char>) -> Option<Seq<char>> {
    if lit.len() >= 2 && lit[0] == '"' && lit.last() == '"' {
        json_unescape(lit.subrange(1, lit.len() - 1))
    } else {
        None
    }
}

proof fn lemma_hex_round_trip(k: nat)
    requires
        k < 16,
    ensures
        hex_value(hex_digit(k)) == Some(k),
{
}

proof fn lemma_escape_concat(a: Seq<char>, b: Seq<char>)
    ensures
        json_escape(a + b) == json_escape(a) + json_escape(b),
    decreases b.len(),
{
    if b.len() == 0 {
        assert(a + b =~= a);
        assert(json_escape(a) + json_escape(b) =~= json_escape(a));
    } else {
        assert((a + b).drop_last() =~= a + b.drop_last());
        lemma_escape_concat(a, b.drop_last());
        assert(json_escape(a + b) =~= json_escape(a) + json_escape(b));
    }
}

proof fn lemma_unescape_escaped_char(c: char, x: Seq<char>)
    ensures
        json_unescape(json_escape_char(c) + x) == prepend_decoded(c, json_unescape(x)),
{
    let t = json_escape_char(c) + x;
    let e = json_escape_char(c);
    if e.len() == 1 {
        assert(t.drop_first() =~= x);
    } else if e.len() == 2 {
        assert(t.skip(2) =~= x);
    } else {
        let d = c as nat;
        lemma_hex_round_trip(d / 16);
        lemma_hex_round_trip(d % 16);
        assert(t.subrange(2, 6) =~= seq!['0', '0', hex_digit(d / 16), hex_digit(d % 16)]);
        assert(t.skip(6) =~= x);
        vstd::utf8::char_u32_cast(c, c as u32);
    }
}

/// A JSON string literal written for `s` reads back as `s`: the quoted text
/// that a delivery carries is the message itself.
pub proof fn lemma_json_string_round_trip(s: Seq<char>)
    ensures
        json_string_value(json_string_literal(s)) == Some(s),
{
    lemma_unescape_escape(s);
    let lit = json_string_literal(s);
    assert(lit.subrange(1, lit.len() - 1) =~= json_escape(s));
}

proof fn lemma_unescape_escape(s: Seq<char>)
    ensures
        json_unescape(json_escape(s)) == Some(s),
    decreases s.len(),
{
    if s.len() > 0 {
        let c = s[0];
        let r = s.drop_first();
        assert(s =~= seq![c] + r);
        lemma_escape_concat(seq![c], r);
        assert(seq![c].drop_last() =~= Seq::<char>::empty());
        assert(seq![c].last() == c);
        assert(json_escape(Seq::<char>::empty()) =~= Seq::<char>::empty());
        assert(json_escape(seq![c]) == json_escape(seq![c].drop_last()) + json_escape_char(c));
        assert(json_escape(seq![c]) =~= json_escape_char(c));
        lemma_unescape_escape(r);
        lemma_unescape_escaped_char(c, json_escape(r));
        assert(seq![c] + r =~= s);
    }
}

/// `serde_json::to_string` on a string slice. Its contract states the literal
/// that serde_json's compact serializer writes: quotes around the text, with
/// `"` and `\` escaped by a backslash, the control characters 0x08, 0x09, 0x0A,
/// 0x0C and 0x0D written as `\b \t \n \f \r`, the other ones below 0x20 as
/// `\u00` and two lower-case hexadecimal digits, and every other character as
/// it is. Serialising a string slice cannot fail.
#[verifier::external_body]
pub(crate) fn json_quote(s: &str) -> (out: String)
    ensures
        out@ == json_string_literal(s@),
{
    serde_json::to_string(s).unwrap()
}

/// The index of the first `c` in `s`, or `s.len()` when there is none.
pub open spec fn first_index(s: Seq<char>, c: char) -> nat
    decreases s.len(),
{
    if s.len() == 0 {
        0
    } else if s[0] == c {
        0
    } else {
        1 + first_index(s.drop_first(), c)
    }
}

/// The JSON objects framed in `s`, in order: each runs from the first `{` to
/// the first `}` after it, and the search goes on after that `}`. This is what
/// the pattern `(?s)\{.*?\}` finds, match after match.
pub open spec fn frames(s: Seq<char>) -> Seq<Seq<char>>
    decreases s.len(),
{
    let i = first_index(s, '{') as int;
    let rest = s.skip(i + 1);
    let k = first_index(rest, '}') as int;
    if i < s.len() && k < rest.len() {
        seq![s.subrange(i, i + k + 2)] + frames(rest.skip(k + 1))
    } else {
        Seq::empty()
    }
}

proof fn lemma_first_index_bound(s: Seq<char>, c: char)
    ensures
        first_index(s, c) <= s.len(),
        first_index(s, c) < s.len() ==> s[first_index(s, c) as int] == c,
        forall|j: int| 0 <= j < first_index(s, c) ==> s[j] != c,
    decreases s.len(),
{
    if s.len() > 0 && s[0] != c {
        lemma_first_index_bound(s.drop_first(), c);
        assert forall|j: int| 0 <= j < first_index(s, c) implies s[j] != c by {
            if j > 0 {
                assert(s[j] == s.drop_first()[j - 1]);
            }
        }
    }
}

/// Every frame is an object as the framing sees one: `{`, then text without
/// `}`, then `}`.
pub proof fn lemma_frames_are_objects(s: Seq<char>)
    ensures
        forall|i: int| 0 <= i < frames(s).len() ==> {
            let t = #[trigger] frames(s)[i];
            &&& t.len() >= 2
            &&& t[0] == '{'
            &&& t.last() == '}'
            &&& forall|j: int| 1 <= j < t.len() - 1 ==> t[j] != '}'
        },
    decreases s.len(),
{
    let i0 = first_index(s, '{') as int;
    let rest = s.skip(i0 + 1);
    let k = first_index(rest, '}') as int;
    if i0 < s.len() && k < rest.len() {
        lemma_first_index_bound(s, '{');
        lemma_first_index_bound(rest, '}');
        lemma_frames_are_objects(rest.skip(k + 1));
        let t = s.subrange(i0, i0 + k + 2);
        assert forall|j: int| 1 <= j < t.len() - 1 implies t[j] != '}' by {
            assert(t[j] == rest[j - 1]);
        }
        assert(t.last() == rest[k]);
        let tail = frames(rest.skip(k + 1));
        assert forall|i: int| 0 <= i < frames(s).len() implies {
            let u = #[trigger] frames(s)[i];
            &&& u.len() >= 2
            &&& u[0] == '{'
            &&& u.last() == '}'
            &&& forall|j: int| 1 <= j < u.len() - 1 ==> u[j] != '}'
        } by {
            if i > 0 {
                assert(frames(s)[i] == tail[i - 1]);
            }
        }
    }
}

pub(crate) proof fn lemma_first_index_concat(x: Seq<char>, y: Seq<char>, c: char)
    requires
        forall|i: int| 0 <= i < x.len() ==> x[i] != c,
    ensures
        first_index(x + y, c) == x.len() + first_index(y, c),
    decreases x.len(),
{
    if x.len() > 0 {
        assert((x + y).drop_first() =~= x.drop_first() + y);
        lemma_first_index_concat(x.drop_first(), y, c);
    } else {
        assert(x + y =~= y);
    }
}

/// Text before the objects is skipped whatever it holds: text without `{`
/// in front of `s` changes none of the frames.
pub proof fn lemma_frames_skip_prefix(j: Seq<char>, s: Seq<char>)
    requires
        forall|k: int| 0 <= k < j.len() ==> j[k] != '{',
    ensures
        frames(j + s) == frames(s),
{
    let t = j + s;
    lemma_first_index_concat(j, s, '{');
    let i_s = first_index(s, '{') as int;
    let i_t = first_index(t, '{') as int;
    assert(i_t == j.len() + i_s);
    if i_s < s.len() {
        assert(t.skip(i_t + 1) =~= s.skip(i_s + 1));
        let rest = s.skip(i_s + 1);
        let k = first_index(rest, '}') as int;
        if k < rest.len() {
            assert(t.subrange(i_t, i_t + k + 2) =~= s.subrange(i_s, i_s + k + 2));
        }
    }
}

proof fn lemma_first_index_step(s: Seq<char>, c: char, k: int)
    requires
        0 <= k < s.len(),
        s[k] != c,
    ensures
        first_index(s.skip(k), c) == 1 + first_index(s.skip(k + 1), c),
{
    assert(s.skip(k).drop_first() =~= s.skip(k + 1));
}

/// The index of the first `c` in `cs` at or after `from`, or `cs.len()`.
fn find_char(cs: &Vec<char>, c: char, from: usize) -> (r: usize)
    requires
        from <= cs@.len(),
    ensures
        from <= r <= cs@.len(),
        r - from == first_index(cs@.skip(from as int), c),
{
    let n = cs.len();
    let mut k = from;
    while k < n && cs[k] != c
        invariant
            n == cs@.len(),
            from <= k <= n,
            first_index(cs@.skip(from as int), c) == (k - from) + first_index(cs@.skip(k as int), c),
        decreases n - k,
    {
        proof {
            lemma_first_index_step(cs@, c, k as int);
        }
        k = k + 1;
    }
    proof {
        if k == n {
            assert(cs@.skip(k as int).len() == 0);
        } else {
            assert(cs@.skip(k as int)[0] == c);
        }
    }
    k
}

/// The JSON objects framed in `text`, in order (see `frames`).
pub fn frame_json_objects(text: &str) -> (out: Vec<String>)
    ensures
        out@.len() == frames(text@).len(),
        forall|i: int| 0 <= i < out@.len() ==> #[trigger] out@[i]@ == frames(text@)[i],
{
    let cs = chars_of(text);
    let n = cs.len();
    let mut out: Vec<String> = Vec::new();
    let ghost mut found: Seq<Seq<char>> = Seq::empty();
    let mut pos: usize = 0;
    assert(cs@.skip(0) =~= cs@);
    loop
        invariant
            n == cs@.len(),
            pos <= n,
            out@.len() == found.len(),
            forall|i: int| 0 <= i < out@.len() ==> #[trigger] out@[i]@ == found[i],
            found + frames(cs@.skip(pos as int)) == frames(text@),
        decreases n - pos,
    {
        let ghost s = cs@.skip(pos as int);
        let i = find_char(&cs, '{', pos);
        if i >= n {
            assert(frames(s) =~= Seq::<Seq<char>>::empty());
            assert(found =~= frames(text@));
            return out;
        }
        let k = find_char(&cs, '}', i + 1);
        let ghost rest = s.skip(i - pos + 1);
        assert(rest =~= cs@.skip(i + 1));
        if k >= n {
            assert(frames(s) =~= Seq::<Seq<char>>::empty());
            assert(found =~= frames(text@));
            return out;
        }
        let mut piece: Vec<char> = Vec::new();
        for j in i..k + 1
            invariant
                n == cs@.len(),
                i <= k < n,
                piece@ == cs@.subrange(i as int, j as int),
        {
            piece.push(cs[j]);
            assert(cs@.subrange(i as int, j + 1) =~= cs@.subrange(i as int, j as int).push(cs@[j as int]));
        }
        out.push(string_from_chars(piece.as_slice()));
        proof {
            assert(s.subrange(i - pos, i - pos + (k - i - 1) + 2) =~= cs@.subrange(i as int, k + 1));
            assert(rest.skip(k - i) =~= cs@.skip(k + 1));
            assert(frames(s) == seq![cs@.subrange(i as int, k + 1)] + frames(cs@.skip(k + 1)));
            found = found.push(cs@.subrange(i as int, k + 1));
            assert(found + frames(cs@.skip(k + 1)) =~= (found.drop_last() + frames(s)));
        }
        pos = k + 1;
    }
}

} // verus!
