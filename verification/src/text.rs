//! Character-indexed views of UTF-8 strings: where the `k`-th character of a
//! string starts in its bytes, and the byte-level string edits used by lines.

use vstd::prelude::*;
use vstd::std_specs::iter::IteratorSpec;
use vstd::string::StringSliceAdditionalSpecFns;
use vstd::utf8::*;

verus! {

/// Number of bytes in the UTF-8 encoding of `s`.
pub open spec fn utf8_len(s: Seq<char>) -> nat {
    encode_utf8(s).len()
}

/// The first `n` characters of `s`, or all of them when `s` is shorter.
pub open spec fn prefix(s: Seq<char>, n: int) -> Seq<char> {
    if n <= s.len() { s.take(n) } else { s }
}

/// Encoding a concatenation encodes each part in turn.
pub proof fn lemma_encode_concat(a: Seq<char>, b: Seq<char>)
    ensures
        encode_utf8(a + b) == encode_utf8(a) + encode_utf8(b),
    decreases a.len(),
{
    if a.len() == 0 {
        assert(a + b =~= b);
        assert(encode_utf8(a) =~= Seq::<u8>::empty());
        assert(encode_utf8(a) + encode_utf8(b) =~= encode_utf8(b));
    } else {
        lemma_encode_concat(a.drop_first(), b);
        assert((a + b).drop_first() =~= a.drop_first() + b);
        assert((a + b)[0] == a[0]);
        let c = encode_scalar(a[0] as u32);
        assert(c + (encode_utf8(a.drop_first()) + encode_utf8(b)) =~= (c + encode_utf8(
            a.drop_first(),
        )) + encode_utf8(b));
    }
}

/// The end of the encoding of a prefix is a character boundary of the whole encoding.
pub proof fn lemma_prefix_boundary(a: Seq<char>, b: Seq<char>)
    ensures
        is_char_boundary(encode_utf8(a + b), utf8_len(a) as int),
    decreases a.len(),
{
    broadcast use encode_utf8_valid_utf8;

    if a.len() == 0 {
    } else {
        let ab = a + b;
        let bytes = encode_utf8(ab);
        encode_utf8_first_scalar(ab);
        assert(ab.drop_first() =~= a.drop_first() + b);
        assert(ab[0] == a[0]);
        assert(pop_first_scalar(bytes) =~= encode_utf8(a.drop_first() + b));
        lemma_prefix_boundary(a.drop_first(), b);
        assert(utf8_len(a) == encode_scalar(a[0] as u32).len() + utf8_len(a.drop_first()));
    }
}

/// Two character sequences with the same encoding are equal.
pub proof fn lemma_encode_injective(a: Seq<char>, b: Seq<char>)
    requires
        encode_utf8(a) == encode_utf8(b),
    ensures
        a == b,
{
    encode_utf8_decode_utf8(a);
    encode_utf8_decode_utf8(b);
}

/// Splitting the characters at `k` splits the encoding at the byte offset of `k`.
pub proof fn lemma_split_at_char(s: Seq<char>, k: int)
    requires
        0 <= k <= s.len(),
    ensures
        encode_utf8(s).take(utf8_len(s.take(k)) as int) == encode_utf8(s.take(k)),
        encode_utf8(s).skip(utf8_len(s.take(k)) as int) == encode_utf8(s.skip(k)),
        is_char_boundary(encode_utf8(s), utf8_len(s.take(k)) as int),
        utf8_len(s.take(k)) <= utf8_len(s),
{
    assert(s =~= s.take(k) + s.skip(k));
    lemma_encode_concat(s.take(k), s.skip(k));
    lemma_prefix_boundary(s.take(k), s.skip(k));
    let e1 = encode_utf8(s.take(k));
    let e2 = encode_utf8(s.skip(k));
    assert((e1 + e2).take(e1.len() as int) =~= e1);
    assert((e1 + e2).skip(e1.len() as int) =~= e2);
}

/// A single character encodes to its scalar encoding.
pub proof fn lemma_encode_single(c: char)
    ensures
        encode_utf8(seq![c]) == encode_scalar(c as u32),
{
    assert(seq![c].drop_first() =~= Seq::<char>::empty());
    assert(encode_utf8(seq![c].drop_first()) =~= Seq::<u8>::empty());
    assert(encode_utf8(seq![c]) =~= encode_scalar(c as u32));
}

/// Every character takes at least one byte.
pub proof fn lemma_utf8_len_ge(s: Seq<char>)
    ensures
        s.len() <= utf8_len(s),
    decreases s.len(),
{
    if s.len() > 0 {
        lemma_utf8_len_ge(s.drop_first());
    }
}

/// Byte width of one character in UTF-8.
pub fn char_utf8_width(c: char) -> (w: usize)
    ensures
        w == encode_scalar(c as u32).len(),
        1 <= w <= 4,
{
    let u = c as u32;
    if u < 0x80 {
        1
    } else if u < 0x800 {
        2
    } else if u < 0x10000 {
        3
    } else {
        4
    }
}

/// Byte offset at which the character with index `char_index` starts in `s`;
/// the byte length of `s` when it has no such character.
pub fn char_to_byte_index(s: &str, char_index: usize) -> (idx: usize)
    ensures
        idx == utf8_len(prefix(s@, char_index as int)),
{
    broadcast use vstd::string::group_string_axioms;

    if char_index == 0 {
        assert(s@.take(0) =~= Seq::<char>::empty());
        return 0;
    }
    let total = s.as_bytes().len();
    let mut it = s.chars();
    let mut n: usize = 0;
    let mut byte_idx: usize = 0;
    proof {
        lemma_split_at_char(s@, s@.len() as int);
        assert(s@.take(s@.len() as int) =~= s@);
        lemma_utf8_len_ge(s@);
    }
    loop
        invariant
            n <= s@.len(),
            it.remaining() == s@.skip(n as int),
            byte_idx == utf8_len(s@.take(n as int)),
            utf8_len(s@) == total,
            s@.len() <= total,
            n <= char_index,
        decreases s@.len() - n,
    {
        if n == char_index {
            return byte_idx;
        }
        match it.next() {
            Some(c) => {
                assert(c == s@[n as int]);
                let w = char_utf8_width(c);
                proof {
                    assert(s@.take(n + 1) =~= s@.take(n as int) + seq![c]);
                    lemma_encode_concat(s@.take(n as int), seq![c]);
                    lemma_encode_single(c);
                    lemma_split_at_char(s@, n + 1);
                }
                byte_idx = byte_idx + w;
                n = n + 1;
                assert(s@.skip(n as int) =~= s@.skip(n - 1).drop_first());
            },
            None => {
                assert(s@.skip(n as int).len() == 0);
                assert(s@.take(n as int) =~= s@);
                return total;
            },
        }
    }
}

/// The characters of `line` with `text` placed before the character at `col`,
/// or at the end when the line is shorter than `col`.
pub open spec fn insert_chars(line: Seq<char>, col: int, text: Seq<char>) -> Seq<char> {
    prefix(line, col) + text + line.skip(prefix(line, col).len() as int)
}

/// The characters of `line` without those at positions `col .. col + n`
/// (the positions past the end of the line are ignored).
pub open spec fn delete_chars(line: Seq<char>, col: int, n: int) -> Seq<char> {
    prefix(line, col) + line.skip(prefix(line, col + n).len() as int)
}

/// The characters `start .. end` of `s`, copied into a new string.
pub fn char_substring(s: &str, start: usize, end: usize) -> (sub: String)
    requires
        start <= end <= s@.len(),
    ensures
        sub@ == s@.subrange(start as int, end as int),
{
    let b_end = char_to_byte_index(s, end);
    proof {
        lemma_split_at_char(s@, end as int);
        assert(prefix(s@, end as int) =~= s@.take(end as int));
    }
    let (head, _) = s.split_at(b_end);
    proof {
        lemma_encode_injective(head@, s@.take(end as int));
    }
    let b_start = char_to_byte_index(head, start);
    proof {
        lemma_split_at_char(head@, start as int);
        assert(prefix(head@, start as int) =~= head@.take(start as int));
    }
    let (_, mid) = head.split_at(b_start);
    proof {
        lemma_encode_injective(mid@, head@.skip(start as int));
        assert(head@.skip(start as int) =~= s@.subrange(start as int, end as int));
    }
    mid.to_owned()
}

/// The characters that `char::is_whitespace` accepts: those with the Unicode
/// `White_Space` property.
pub open spec fn is_white_space(c: char) -> bool {
    let u = c as u32;
    ||| 0x09 <= u <= 0x0D
    ||| u == 0x20
    ||| u == 0x85
    ||| u == 0xA0
    ||| u == 0x1680
    ||| 0x2000 <= u <= 0x200A
    ||| u == 0x2028
    ||| u == 0x2029
    ||| u == 0x202F
    ||| u == 0x205F
    ||| u == 0x3000
}

/// Whether `c` has the Unicode `White_Space` property.
pub fn is_whitespace(c: char) -> (b: bool)
    ensures
        b == is_white_space(c),
{
    let u = c as u32;
    (0x09 <= u && u <= 0x0D) || u == 0x20 || u == 0x85 || u == 0xA0 || u == 0x1680 || (0x2000
        <= u && u <= 0x200A) || u == 0x2028 || u == 0x2029 || u == 0x202F || u == 0x205F || u
        == 0x3000
}

/// Number of white-space characters at the start of `s`.
pub open spec fn leading_blanks(s: Seq<char>) -> nat
    decreases s.len(),
{
    if s.len() > 0 && is_white_space(s[0]) {
        1 + leading_blanks(s.drop_first())
    } else {
        0
    }
}

proof fn lemma_leading_blanks_bound(s: Seq<char>)
    ensures
        leading_blanks(s) <= s.len(),
        leading_blanks(s) < s.len() ==> !is_white_space(s[leading_blanks(s) as int]),
        forall|i: int| 0 <= i < leading_blanks(s) ==> is_white_space(#[trigger] s[i]),
    decreases s.len(),
{
    if s.len() > 0 && is_white_space(s[0]) {
        lemma_leading_blanks_bound(s.drop_first());
        assert forall|i: int| 0 <= i < leading_blanks(s) implies is_white_space(#[trigger] s[i]) by {
            if i > 0 {
                assert(s[i] == s.drop_first()[i - 1]);
            }
        }
    }
}

/// Index of the first character of `s` that is not white space, if there is one.
pub fn first_non_blank(s: &str) -> (pos: Option<usize>)
    ensures
        pos matches Some(p) ==> p == leading_blanks(s@) && leading_blanks(s@) < s@.len(),
        pos is None ==> leading_blanks(s@) == s@.len(),
{
    broadcast use vstd::string::group_string_axioms;

    proof {
        lemma_leading_blanks_bound(s@);
        lemma_utf8_len_ge(s@);
    }
    let total = s.as_bytes().len();
    let mut it = s.chars();
    let mut n: usize = 0;
    loop
        invariant
            n <= s@.len(),
            s@.len() <= total,
            it.remaining() == s@.skip(n as int),
            forall|i: int| 0 <= i < n ==> is_white_space(#[trigger] s@[i]),
            leading_blanks(s@) <= s@.len(),
            leading_blanks(s@) < s@.len() ==> !is_white_space(s@[leading_blanks(s@) as int]),
            forall|i: int| 0 <= i < leading_blanks(s@) ==> is_white_space(#[trigger] s@[i]),
        decreases s@.len() - n,
    {
        match it.next() {
            Some(c) => {
                assert(c == s@[n as int]);
                if !is_whitespace(c) {
                    return Some(n);
                }
                n = n + 1;
                assert(s@.skip(n as int) =~= s@.skip(n - 1).drop_first());
            },
            None => {
                assert(s@.skip(n as int).len() == 0);
                return None;
            },
        }
    }
}

/// `line` without one trailing carriage return.
pub open spec fn strip_cr(line: Seq<char>) -> Seq<char> {
    if line.len() > 0 && line.last() == '\r' { line.drop_last() } else { line }
}

/// Reading `s` from the start: the lines ended by a line feed so far, and the
/// characters read since the last line feed.
pub open spec fn lines_scan(s: Seq<char>) -> (Seq<Seq<char>>, Seq<char>)
    decreases s.len(),
{
    if s.len() == 0 {
        (Seq::empty(), Seq::empty())
    } else {
        let (done, cur) = lines_scan(s.drop_last());
        if s.last() == '\n' {
            (done.push(strip_cr(cur)), Seq::empty())
        } else {
            (done, cur.push(s.last()))
        }
    }
}

/// The lines of `s` as `str::lines` yields them: split at `\n` or `\r\n`, without
/// the terminators, and with no extra empty line after a final terminator.
pub open spec fn lines_of(s: Seq<char>) -> Seq<Seq<char>> {
    let (done, cur) = lines_scan(s);
    if cur.len() == 0 { done } else { done.push(cur) }
}

/// A text with a character has a line.
pub proof fn lemma_lines_of_nonempty(s: Seq<char>)
    requires
        s.len() > 0,
    ensures
        lines_of(s).len() >= 1,
{
    let (done, cur) = lines_scan(s);
    assert(s.drop_last().len() < s.len());
    let (d0, c0) = lines_scan(s.drop_last());
    if s.last() == '\n' {
        assert(done == d0.push(strip_cr(c0)));
    } else {
        assert(cur == c0.push(s.last()));
    }
}

/// A text ending in two line feeds has an empty last line.
pub proof fn lemma_lines_of_blank_end(x: Seq<char>)
    ensures
        lines_of(x + seq!['\n', '\n']).len() >= 1,
        lines_of(x + seq!['\n', '\n']).last() == Seq::<char>::empty(),
{
    let s = x + seq!['\n', '\n'];
    let s1 = x + seq!['\n'];
    assert(s.drop_last() =~= s1);
    assert(s1.drop_last() =~= x);
    assert(s.last() == '\n');
    assert(s1.last() == '\n');
    assert(lines_scan(s1).1 =~= Seq::<char>::empty());
    assert(strip_cr(Seq::<char>::empty()) =~= Seq::<char>::empty());
}

/// The characters of each string.
pub open spec fn string_views(v: Seq<String>) -> Seq<Seq<char>> {
    v.map_values(|x: String| x@)
}

/// The lines of `s`, as `str::lines` yields them.
pub fn split_lines(s: &str) -> (lines: Vec<String>)
    ensures
        string_views(lines@) == lines_of(s@),
{
    broadcast use vstd::string::group_string_axioms;

    proof {
        lemma_utf8_len_ge(s@);
    }
    let total = s.as_bytes().len();
    let mut it = s.chars();
    let mut n: usize = 0;
    let mut done: Vec<String> = Vec::new();
    let mut cur = String::new();
    let mut ends_cr = false;
    assert(s@.take(0) =~= Seq::<char>::empty());
    loop
        invariant
            n <= s@.len(),
            s@.len() <= total,
            it.remaining() == s@.skip(n as int),
            (string_views(done@), cur@) == lines_scan(s@.take(n as int)),
            ends_cr == (cur@.len() > 0 && cur@.last() == '\r'),
        decreases s@.len() - n,
    {
        match it.next() {
            Some(c) => {
                assert(c == s@[n as int]);
                let ghost before = s@.take(n as int);
                assert(s@.take(n + 1).drop_last() =~= before);
                assert(s@.take(n + 1).last() == c);
                if c == '\n' {
                    if ends_cr {
                        string_pop(&mut cur);
                    }
                    let line = cur;
                    cur = String::new();
                    ends_cr = false;
                    done.push(line);
                    assert(string_views(done@) =~= lines_scan(before).0.push(
                        strip_cr(lines_scan(before).1),
                    ));
                } else {
                    string_push(&mut cur, c);
                    ends_cr = c == '\r';
                }
                n = n + 1;
                assert(s@.skip(n as int) =~= s@.skip(n - 1).drop_first());
            },
            None => {
                assert(s@.skip(n as int).len() == 0);
                assert(s@.take(n as int) =~= s@);
                if !cur.as_str().is_empty() {
                    done.push(cur);
                    assert(string_views(done@) =~= lines_of(s@));
                }
                return done;
            },
        }
    }
}

/// `String::pop`: removes the last character, if any, and returns it.
#[verifier::external_body]
pub(crate) fn string_pop(s: &mut String) -> (c: Option<char>)
    ensures
        old(s)@.len() == 0 ==> c is None && final(s)@ == old(s)@,
        old(s)@.len() > 0 ==> c == Some(old(s)@.last()) && final(s)@ == old(s)@.drop_last(),
{
    s.pop()
}

/// `String::insert_str`: places `text` at byte offset `idx`, which must fall on a
/// character boundary (the call panics otherwise). The bytes after the call are
/// those before `idx`, then those of `text`, then the rest.
#[verifier::external_body]
pub(crate) fn string_insert_str(s: &mut String, idx: usize, text: &str)
    requires
        is_char_boundary(encode_utf8(old(s)@), idx as int),
    ensures
        encode_utf8(final(s)@) == encode_utf8(old(s)@).take(idx as int) + encode_utf8(text@)
            + encode_utf8(old(s)@).skip(idx as int),
{
    s.insert_str(idx, text)
}

/// `String::replace_range` over the byte range `start .. end`, whose ends must be
/// character boundaries with `start <= end` (the call panics otherwise). The bytes
/// of the range are replaced by those of `with`.
#[verifier::external_body]
pub(crate) fn string_replace_range(s: &mut String, start: usize, end: usize, with: &str)
    requires
        start <= end,
        is_char_boundary(encode_utf8(old(s)@), start as int),
        is_char_boundary(encode_utf8(old(s)@), end as int),
    ensures
        encode_utf8(final(s)@) == encode_utf8(old(s)@).take(start as int) + encode_utf8(with@)
            + encode_utf8(old(s)@).skip(end as int),
{
    s.replace_range(start..end, with)
}

/// `String::split_off`: the bytes from offset `at`, which must be a character
/// boundary (the call panics otherwise), move to the returned string.
#[verifier::external_body]
pub(crate) fn string_split_off(s: &mut String, at: usize) -> (tail: String)
    requires
        is_char_boundary(encode_utf8(old(s)@), at as int),
    ensures
        encode_utf8(final(s)@) == encode_utf8(old(s)@).take(at as int),
        encode_utf8(tail@) == encode_utf8(old(s)@).skip(at as int),
{
    s.split_off(at)
}

/// `String::push`: appends one character.
#[verifier::external_body]
pub(crate) fn string_push(s: &mut String, c: char)
    ensures
        final(s)@ == old(s)@.push(c),
{
    s.push(c)
}

} // verus!
