//! Character-level helpers on strings.

use vstd::prelude::*;

verus! {

/// The characters of `s`, in order.
pub fn chars_of(s: &str) -> (out: Vec<char>)
    ensures
        out@ == s@,
{
    let mut out: Vec<char> = Vec::new();
    for c in it: s.chars()
        invariant
            out@ == it.seq().take(it.index() as int),
            it.seq() == s@,
    {
        out.push(c);
    }
    out
}

/// Whether `a` and `b` hold the same characters.
pub fn str_eq(a: &str, b: &str) -> (r: bool)
    ensures
        r == (a@ == b@),
{
    let x = chars_of(a);
    let y = chars_of(b);
    if x.len() != y.len() {
        return false;
    }
    let n = x.len();
    for i in 0..n
        invariant
            n == x@.len(),
            n == y@.len(),
            x@ == a@,
            y@ == b@,
            forall|j: int| 0 <= j < i ==> x@[j] == y@[j],
    {
        if x[i] != y[i] {
            return false;
        }
    }
    assert(x@ =~= y@);
    true
}

/// Appends one character to a string (`String::push`).
#[verifier::external_body]
fn push_char(s: &mut String, c: char)
    ensures
        final(s)@ == old(s)@.push(c),
{
    s.push(c);
}

/// The string made of the characters `cs`, in order.
pub fn string_from_chars(cs: &[char]) -> (out: String)
    ensures
        out@ == cs@,
{
    let mut out = String::new();
    let n = cs.len();
    for i in 0..n
        invariant
            n == cs@.len(),
            out@ == cs@.take(i as int),
    {
        push_char(&mut out, cs[i]);
        assert(cs@.take(i + 1) =~= cs@.take(i as int).push(cs@[i as int]));
    }
    assert(cs@.take(n as int) =~= cs@);
    out
}

/// Whether `c` has the Unicode `White_Space` property: tab, line feed,
/// vertical tab, form feed, carriage return, space, next line, no-break space,
/// ogham space mark, the spaces U+2000 to U+200A, the line and paragraph
/// separators, the narrow no-break space, the medium mathematical space and
/// the ideographic space.
pub open spec fn white_space(c: char) -> bool {
    let u = c as u32;
    ||| 0x09 <= u <= 0x0d
    ||| u == 0x20
    ||| u == 0x85
    ||| u == 0xa0
    ||| u == 0x1680
    ||| 0x2000 <= u <= 0x200a
    ||| u == 0x2028
    ||| u == 0x2029
    ||| u == 0x202f
    ||| u == 0x205f
    ||| u == 0x3000
}

/// Whether `c` is white space (as `char::is_whitespace` decides it).
pub fn is_white_space(c: char) -> (b: bool)
    ensures
        b == white_space(c),
{
    let u = c as u32;
    (0x09 <= u && u <= 0x0d) || u == 0x20 || u == 0x85 || u == 0xa0 || u == 0x1680 || (0x2000 <= u
        && u <= 0x200a) || u == 0x2028 || u == 0x2029 || u == 0x202f || u == 0x205f || u == 0x3000
}

/// `s` without its leading white space.
pub open spec fn trim_start_spec(s: Seq<char>) -> Seq<char>
    decreases s.len(),
{
    if s.len() > 0 && white_space(s[0]) {
        trim_start_spec(s.drop_first())
    } else {
        s
    }
}

/// `s` without its trailing white space.
pub open spec fn trim_end_spec(s: Seq<char>) -> Seq<char>
    decreases s.len(),
{
    if s.len() > 0 && white_space(s.last()) {
        trim_end_spec(s.drop_last())
    } else {
        s
    }
}

/// `s` without its leading and trailing white space.
pub open spec fn trim_spec(s: Seq<char>) -> Seq<char> {
    trim_end_spec(trim_start_spec(s))
}

/// `s` with its leading and trailing white space removed (as `str::trim` does).
pub fn trim(s: &str) -> (out: String)
    ensures
        out@ == trim_spec(s@),
{
    let cs = chars_of(s);
    let n = cs.len();
    let mut start: usize = 0;
    assert(cs@.skip(0) =~= cs@);
    while start < n && is_white_space(cs[start])
        invariant
            n == cs@.len(),
            start <= n,
            trim_start_spec(cs@) == trim_start_spec(cs@.skip(start as int)),
        decreases n - start,
    {
        assert(cs@.skip(start as int).drop_first() =~= cs@.skip(start + 1));
        start = start + 1;
    }
    assert(trim_start_spec(cs@) == cs@.subrange(start as int, n as int)) by {
        assert(cs@.skip(start as int) =~= cs@.subrange(start as int, n as int));
    }
    let mut end: usize = n;
    while end > start && is_white_space(cs[end - 1])
        invariant
            n == cs@.len(),
            start <= end <= n,
            trim_spec(s@) == trim_end_spec(cs@.subrange(start as int, end as int)),
        decreases end,
    {
        assert(cs@.subrange(start as int, end as int).drop_last()
            =~= cs@.subrange(start as int, end - 1));
        end = end - 1;
    }
    let mut kept: Vec<char> = Vec::new();
    for i in start..end
        invariant
            n == cs@.len(),
            start <= end <= n,
            kept@ == cs@.subrange(start as int, i as int),
    {
        kept.push(cs[i]);
        assert(cs@.subrange(start as int, i + 1) =~= cs@.subrange(start as int, i as int).push(cs@[i as int]));
    }
    string_from_chars(kept.as_slice())
}

/// `s` with every line feed written as a backslash followed by `n`.
pub open spec fn escape_newlines_spec(s: Seq<char>) -> Seq<char>
    decreases s.len(),
{
    if s.len() == 0 {
        Seq::empty()
    } else if s.last() == '\n' {
        escape_newlines_spec(s.drop_last()) + seq!['\\', 'n']
    } else {
        escape_newlines_spec(s.drop_last()).push(s.last())
    }
}

/// `s` with each line feed replaced by the two characters `\` and `n`
/// (as `s.replace("\n", "\\n")` does).
pub fn escape_newlines(s: &str) -> (out: String)
    ensures
        out@ == escape_newlines_spec(s@),
{
    let cs = chars_of(s);
    let n = cs.len();
    let mut out: Vec<char> = Vec::new();
    for i in 0..n
        invariant
            n == cs@.len(),
            out@ == escape_newlines_spec(cs@.take(i as int)),
    {
        assert(cs@.take(i + 1).drop_last() =~= cs@.take(i as int));
        if cs[i] == '\n' {
            out.push('\\');
            out.push('n');
            assert(out@ =~= escape_newlines_spec(cs@.take(i as int)) + seq!['\\', 'n']);
        } else {
            out.push(cs[i]);
        }
    }
    assert(cs@.take(n as int) =~= cs@);
    string_from_chars(out.as_slice())
}

proof fn lemma_trim_start_shape(s: Seq<char>)
    ensures
        trim_start_spec(s).len() == 0 || !white_space(trim_start_spec(s)[0]),
    decreases s.len(),
{
    if s.len() > 0 && white_space(s[0]) {
        lemma_trim_start_shape(s.drop_first());
    }
}

proof fn lemma_trim_end_shape(s: Seq<char>)
    ensures
        trim_end_spec(s).len() <= s.len(),
        trim_end_spec(s) == s.take(trim_end_spec(s).len() as int),
        trim_end_spec(s).len() == 0 || !white_space(trim_end_spec(s).last()),
    decreases s.len(),
{
    if s.len() > 0 && white_space(s.last()) {
        lemma_trim_end_shape(s.drop_last());
        let k = trim_end_spec(s).len() as int;
        assert(s.drop_last().take(k) =~= s.take(k));
    } else {
        assert(s.take(s.len() as int) =~= s);
    }
}

/// Trimming twice is trimming once: a trimmed line has no surrounding white space left.
pub proof fn lemma_trim_idempotent(s: Seq<char>)
    ensures
        trim_spec(trim_spec(s)) == trim_spec(s),
{
    let y = trim_start_spec(s);
    lemma_trim_start_shape(s);
    lemma_trim_end_shape(y);
    let z = trim_end_spec(y);
    if z.len() > 0 {
        assert(z[0] == y[0]);
        assert(trim_start_spec(z) == z);
        assert(trim_end_spec(z) == z);
    } else {
        assert(trim_start_spec(z) == z);
        assert(trim_end_spec(z) == z);
    }
}

/// Text with its line feeds escaped holds no line feed: a message built from
/// a log line stays on one line.
pub proof fn lemma_escaped_has_no_line_feed(s: Seq<char>)
    ensures
        forall|i: int| 0 <= i < escape_newlines_spec(s).len() ==> escape_newlines_spec(s)[i] != '\n',
    decreases s.len(),
{
    if s.len() > 0 {
        lemma_escaped_has_no_line_feed(s.drop_last());
        let a = escape_newlines_spec(s.drop_last());
        if s.last() == '\n' {
            assert forall|i: int| 0 <= i < (a + seq!['\\', 'n']).len() implies (a + seq!['\\', 'n'])[i] != '\n' by {
                if i >= a.len() {
                    assert((a + seq!['\\', 'n'])[i] == seq!['\\', 'n'][i - a.len()]);
                }
            }
        } else {
            assert forall|i: int| 0 <= i < a.push(s.last()).len() implies a.push(s.last())[i] != '\n' by {
                if i < a.len() {
                    assert(a.push(s.last())[i] == a[i]);
                }
            }
        }
    }
}

/// Escaping works piece by piece: the escape of two texts one after the
/// other is the escape of the first followed by the escape of the second.
pub proof fn lemma_escape_newlines_concat(a: Seq<char>, b: Seq<char>)
    ensures
        escape_newlines_spec(a + b) == escape_newlines_spec(a) + escape_newlines_spec(b),
    decreases b.len(),
{
    if b.len() == 0 {
        assert(a + b =~= a);
        assert(escape_newlines_spec(a) + escape_newlines_spec(b) =~= escape_newlines_spec(a));
    } else {
        assert((a + b).drop_last() =~= a + b.drop_last());
        assert((a + b).last() == b.last());
        lemma_escape_newlines_concat(a, b.drop_last());
        assert(escape_newlines_spec(a + b) =~= escape_newlines_spec(a) + escape_newlines_spec(b));
    }
}

/// Text without line feeds is kept as it is: every other character, a
/// backslash too, passes through unchanged.
pub proof fn lemma_escape_newlines_keeps_other_text(s: Seq<char>)
    requires
        forall|i: int| 0 <= i < s.len() ==> s[i] != '\n',
    ensures
        escape_newlines_spec(s) == s,
    decreases s.len(),
{
    if s.len() > 0 {
        lemma_escape_newlines_keeps_other_text(s.drop_last());
        assert(s.drop_last().push(s.last()) =~= s);
    }
}

/// A line feed is written as the two characters `\` and `n`.
pub proof fn lemma_escape_newlines_line_feed()
    ensures
        escape_newlines_spec(seq!['\n']) == seq!['\\', 'n'],
{
    let s = seq!['\n'];
    assert(s.len() == 1 && s.last() == '\n');
    assert(s.drop_last() =~= Seq::<char>::empty());
    assert(escape_newlines_spec(Seq::<char>::empty()) =~= Seq::<char>::empty());
    assert(escape_newlines_spec(s) == escape_newlines_spec(s.drop_last()) + seq!['\\', 'n']);
    assert(Seq::<char>::empty() + seq!['\\', 'n'] =~= seq!['\\', 'n']);
}

/// The decimal digit character for `d < 10`.
pub open spec fn digit_char(d: nat) -> char {
    ((d + 48) as u8) as char
}

/// The decimal representation of `n`, without leading zeros.
pub open spec fn decimal_spec(n: nat) -> Seq<char>
    decreases n,
{
    if n < 10 {
        seq![digit_char(n)]
    } else {
        decimal_spec(n / 10).push(digit_char(n % 10))
    }
}

fn push_decimal(n: u128, out: &mut Vec<char>)
    ensures
        final(out)@ == old(out)@ + decimal_spec(n as nat),
    decreases n,
{
    if n >= 10 {
        push_decimal(n / 10, out);
    }
    let d: u8 = (n % 10) as u8;
    out.push((d + 48) as char);
    assert(final(out)@ =~= old(out)@ + decimal_spec(n as nat)) by {
        if n >= 10 {
            assert(decimal_spec(n as nat) == decimal_spec((n / 10) as nat).push(digit_char((n % 10) as nat)));
        }
    }
}

/// The decimal representation of `n` (as `n.to_string()` gives it).
pub fn decimal(n: u128) -> (out: String)
    ensures
        out@ == decimal_spec(n as nat),
{
    let mut cs: Vec<char> = Vec::new();
    push_decimal(n, &mut cs);
    assert(cs@ =~= decimal_spec(n as nat));
    string_from_chars(cs.as_slice())
}

/// What `str::to_lowercase` returns for `s`.
pub uninterp spec fn unicode_lowercase(s: Seq<char>) -> Seq<char>;

/// What `str::to_uppercase` returns for `s`.
pub uninterp spec fn unicode_uppercase(s: Seq<char>) -> Seq<char>;

/// `str::to_lowercase`: the result is named `unicode_lowercase(s@)`.
#[verifier::external_body]
pub(crate) fn to_lowercase(s: &str) -> (out: String)
    ensures
        out@ == unicode_lowercase(s@),
{
    s.to_lowercase()
}

/// `str::to_uppercase`: the result is named `unicode_uppercase(s@)`.
#[verifier::external_body]
pub(crate) fn to_uppercase(s: &str) -> (out: String)
    ensures
        out@ == unicode_uppercase(s@),
{
    s.to_uppercase()
}

/// What `String::from_utf8_lossy` gives for `bytes`.
pub uninterp spec fn utf8_lossy(bytes: Seq<u8>) -> Seq<char>;

/// `String::from_utf8_lossy`: the result is named `utf8_lossy(bytes@)`; as its
/// documentation states, on valid UTF-8 it is the decoded text.
#[verifier::external_body]
pub(crate) fn decode_utf8_lossy(bytes: &[u8]) -> (out: String)
    ensures
        out@ == utf8_lossy(bytes@),
        vstd::utf8::valid_utf8(bytes@) ==> out@ == vstd::utf8::decode_utf8(bytes@),
{
    String::from_utf8_lossy(bytes).into_owned()
}

} // verus!
