//! Operations on text, stated over sequences of characters.
//!
//! A `&str` and a `String` are modelled by their view, a `Seq<char>`. Each
//! operation has a specification function on such sequences, and an executable
//! function that is proved to compute it.
use vstd::prelude::*;
use vstd::string::*;

verus! {

/// The contents of a list of strings.
pub open spec fn texts(v: Seq<String>) -> Seq<Seq<char>> {
    Seq::new(v.len(), |i: int| v[i]@)
}

/// The contents of an optional string.
pub open spec fn opt_text(o: Option<String>) -> Option<Seq<char>> {
    match o {
        Some(s) => Some(s@),
        None => None,
    }
}

/// The contents of an optional string slice.
pub open spec fn opt_str(o: Option<&str>) -> Option<Seq<char>> {
    match o {
        Some(s) => Some(s@),
        None => None,
    }
}

/// `String::push` appends one character.
pub assume_specification[ String::push ](s: &mut String, c: char)
    ensures
        final(s)@ == old(s)@.push(c),
;

/// The characters with the Unicode property White_Space.
pub open spec fn is_white_space(c: char) -> bool {
    ||| '\u{9}' <= c <= '\u{d}'
    ||| c == ' '
    ||| c == '\u{85}'
    ||| c == '\u{a0}'
    ||| c == '\u{1680}'
    ||| '\u{2000}' <= c <= '\u{200a}'
    ||| c == '\u{2028}'
    ||| c == '\u{2029}'
    ||| c == '\u{202f}'
    ||| c == '\u{205f}'
    ||| c == '\u{3000}'
}

/// `char::is_whitespace` holds exactly of the characters with the Unicode
/// property White_Space.
pub assume_specification[ char::is_whitespace ](c: char) -> (r: bool)
    ensures
        r == is_white_space(c),
;

/// The characters of the Unicode general category Cc.
pub open spec fn is_control_char(c: char) -> bool {
    c <= '\u{1f}' || '\u{7f}' <= c <= '\u{9f}'
}

/// `char::is_control` holds exactly of the characters of the general category
/// Cc (control codes).
pub assume_specification[ char::is_control ](c: char) -> (r: bool)
    ensures
        r == is_control_char(c),
;

/// `str::eq` compares two string slices character by character.
#[verifier::external_body]
pub(crate) fn same(a: &str, b: &str) -> (r: bool)
    ensures
        r == (a@ == b@),
{
    a == b
}

/// The characters of a string slice.
pub(crate) fn chars_of(s: &str) -> (r: Vec<char>)
    ensures
        r@ == s@,
{
    let mut out: Vec<char> = Vec::new();
    for c in it: s.chars()
        invariant
            it.seq() == s@,
            out@ == s@.take(it.index() as int),
    {
        out.push(c);
        assert(out@ =~= s@.take(it.index() + 1));
    }
    assert(out@ =~= s@);
    out
}


/// The string with the given characters.
pub(crate) fn string_of(chars: &Vec<char>, from: usize, to: usize) -> (r: String)
    requires
        from <= to <= chars@.len(),
    ensures
        r@ == chars@.subrange(from as int, to as int),
{
    let mut out = String::new();
    let mut i: usize = from;
    while i < to
        invariant
            from <= i <= to <= chars@.len(),
            out@ == chars@.subrange(from as int, i as int),
        decreases to - i,
    {
        out.push(chars[i]);
        i += 1;
        assert(out@ =~= chars@.subrange(from as int, i as int));
    }
    out
}

/// The concatenation of two texts.
pub(crate) fn cat(a: &str, b: &str) -> (r: String)
    ensures
        r@ == a@ + b@,
{
    let mut out = String::from_str(a);
    out.append(b);
    out
}

/// The concatenation of three texts.
pub(crate) fn cat3(a: &str, b: &str, c: &str) -> (r: String)
    ensures
        r@ == a@ + b@ + c@,
{
    let mut out = String::from_str(a);
    out.append(b);
    out.append(c);
    out
}

/// The concatenation of five texts.
pub(crate) fn cat5(a: &str, b: &str, c: &str, d: &str, e: &str) -> (r: String)
    ensures
        r@ == a@ + b@ + c@ + d@ + e@,
{
    let mut out = String::from_str(a);
    out.append(b);
    out.append(c);
    out.append(d);
    out.append(e);
    out
}

// ─── Prefixes and suffixes ──────────────────────────────────────────────────

/// Whether `s` begins with `p`.
pub open spec fn starts_with_spec(s: Seq<char>, p: Seq<char>) -> bool {
    p.len() <= s.len() && s.take(p.len() as int) == p
}

/// Whether `s` ends with `p`.
pub open spec fn ends_with_spec(s: Seq<char>, p: Seq<char>) -> bool {
    p.len() <= s.len() && s.skip(s.len() - p.len()) == p
}

/// What follows the prefix `p` of `s`, where `s` begins with `p`.
pub open spec fn strip_prefix_spec(s: Seq<char>, p: Seq<char>) -> Option<Seq<char>> {
    if starts_with_spec(s, p) {
        Some(s.skip(p.len() as int))
    } else {
        None
    }
}

/// Whether `s` begins with `p`.
pub(crate) fn starts_with(s: &str, p: &str) -> (r: bool)
    ensures
        r == starts_with_spec(s@, p@),
{
    let n: usize = s.unicode_len();
    let m: usize = p.unicode_len();
    if m > n {
        return false;
    }
    let head = s.substring_char(0, m);
    same(head, p)
}

/// Whether `s` ends with `p`.
pub(crate) fn ends_with(s: &str, p: &str) -> (r: bool)
    ensures
        r == ends_with_spec(s@, p@),
{
    let n: usize = s.unicode_len();
    let m: usize = p.unicode_len();
    if m > n {
        return false;
    }
    let tail = s.substring_char(n - m, n);
    same(tail, p)
}

/// What follows the prefix `p` of `s`, where `s` begins with `p`.
pub(crate) fn strip_prefix<'a>(s: &'a str, p: &str) -> (r: Option<&'a str>)
    ensures
        opt_str(r) == strip_prefix_spec(s@, p@),
{
    if starts_with(s, p) {
        let n: usize = s.unicode_len();
        let m: usize = p.unicode_len();
        let rest = s.substring_char(m, n);
        Some(rest)
    } else {
        None
    }
}

// ─── Searching for a character ──────────────────────────────────────────────

/// The position of the first `c` in `s`; the length of `s` where there is none.
pub open spec fn index_of(s: Seq<char>, c: char) -> nat
    decreases s.len(),
{
    if s.len() == 0 || s[0] == c {
        0
    } else {
        1 + index_of(s.skip(1), c)
    }
}

/// `index_of` is the one position with no `c` before it at which there is a `c`
/// or the text ends.
pub proof fn index_of_is(s: Seq<char>, c: char, i: int)
    requires
        0 <= i <= s.len(),
        forall|j: int| 0 <= j < i ==> s[j] != c,
        i == s.len() || s[i] == c,
    ensures
        index_of(s, c) == i,
    decreases s.len(),
{
    if s.len() > 0 && i > 0 {
        assert(s[0] != c);
        assert forall|j: int| 0 <= j < i - 1 implies s.skip(1)[j] != c by {
            assert(s.skip(1)[j] == s[j + 1]);
        }
        index_of_is(s.skip(1), c, i - 1);
    }
}

/// What `index_of` says of the text.
pub proof fn index_of_bounds(s: Seq<char>, c: char)
    ensures
        index_of(s, c) <= s.len(),
        forall|j: int| 0 <= j < index_of(s, c) ==> s[j] != c,
        index_of(s, c) < s.len() ==> s[index_of(s, c) as int] == c,
    decreases s.len(),
{
    if s.len() > 0 && s[0] != c {
        let t = s.skip(1);
        index_of_bounds(t, c);
        assert forall|j: int| 0 <= j < index_of(s, c) implies s[j] != c by {
            if j > 0 {
                assert(t[j - 1] == s[j]);
            }
        }
        if index_of(s, c) < s.len() {
            assert(t[index_of(t, c) as int] == s[index_of(s, c) as int]);
        }
    }
}

/// The position of the first `c` in `chars` at or after `from`.
pub(crate) fn position(chars: &Vec<char>, from: usize, c: char) -> (r: usize)
    requires
        from <= chars@.len(),
    ensures
        from <= r <= chars@.len(),
        r == from + index_of(chars@.skip(from as int), c),
        forall|j: int| from <= j < r ==> chars@[j] != c,
        r < chars@.len() ==> chars@[r as int] == c,
{
    let mut i: usize = from;
    while i < chars.len() && chars[i] != c
        invariant
            from <= i <= chars@.len(),
            forall|j: int| from <= j < i ==> chars@[j] != c,
        decreases chars@.len() - i,
    {
        i += 1;
    }
    proof {
        let t = chars@.skip(from as int);
        assert forall|j: int| 0 <= j < i - from implies t[j] != c by {
            assert(t[j] == chars@[from + j]);
        }
        index_of_is(t, c, i - from);
    }
    i
}

/// Whether `c` occurs in `s`.
pub(crate) fn contains_char(s: &str, c: char) -> (r: bool)
    ensures
        r == s@.contains(c),
{
    let chars = chars_of(s);
    let i: usize = position(&chars, 0, c);
    proof {
        if i < chars@.len() {
            assert(s@[i as int] == c);
        } else {
            assert forall|j: int| 0 <= j < s@.len() implies s@[j] != c by {}
        }
    }
    i < chars.len()
}

/// The two parts of `s` around the first `c`.
pub open spec fn split_once_spec(s: Seq<char>, c: char) -> Option<(Seq<char>, Seq<char>)> {
    let i = index_of(s, c) as int;
    if i < s.len() {
        Some((s.take(i), s.skip(i + 1)))
    } else {
        None
    }
}

/// The two parts of `s` around the first `c`.
pub(crate) fn split_once<'a>(s: &'a str, c: char) -> (r: Option<(&'a str, &'a str)>)
    ensures
        match r {
            Some((a, b)) => split_once_spec(s@, c) == Some((a@, b@)),
            None => split_once_spec(s@, c) is None,
        },
{
    let chars = chars_of(s);
    let i: usize = position(&chars, 0, c);
    assert(chars@.skip(0) =~= s@);
    if i < chars.len() {
        let a = s.substring_char(0, i);
        let b = s.substring_char(i + 1, chars.len());
        Some((a, b))
    } else {
        None
    }
}

/// The position after the last `c` in `s`; 0 where there is none.
pub open spec fn after_last(s: Seq<char>, c: char) -> nat
    decreases s.len(),
{
    if s.len() == 0 || s.last() == c {
        s.len()
    } else {
        after_last(s.drop_last(), c)
    }
}

/// The two parts of `s` around the last `c`.
pub open spec fn rsplit_once_spec(s: Seq<char>, c: char) -> Option<(Seq<char>, Seq<char>)> {
    let i = after_last(s, c) as int;
    if i > 0 {
        Some((s.take(i - 1), s.skip(i)))
    } else {
        None
    }
}

proof fn after_last_is(s: Seq<char>, c: char, i: int)
    requires
        0 <= i <= s.len(),
        forall|j: int| i <= j < s.len() ==> s[j] != c,
        i == 0 || s[i - 1] == c,
    ensures
        after_last(s, c) == i,
    decreases s.len(),
{
    if s.len() > 0 && i < s.len() {
        assert(s.last() != c);
        let t = s.drop_last();
        assert forall|j: int| i <= j < t.len() implies t[j] != c by {
            assert(t[j] == s[j]);
        }
        after_last_is(t, c, i);
    }
}

/// The two parts of `s` around the last `c`.
pub(crate) fn rsplit_once<'a>(s: &'a str, c: char) -> (r: Option<(&'a str, &'a str)>)
    ensures
        match r {
            Some((a, b)) => rsplit_once_spec(s@, c) == Some((a@, b@)),
            None => rsplit_once_spec(s@, c) is None,
        },
{
    let chars = chars_of(s);
    let mut i: usize = chars.len();
    while i > 0 && chars[i - 1] != c
        invariant
            i <= chars@.len(),
            chars@ == s@,
            forall|j: int| i <= j < s@.len() ==> s@[j] != c,
        decreases i,
    {
        i -= 1;
    }
    proof {
        after_last_is(s@, c, i as int);
    }
    if i > 0 {
        let a = s.substring_char(0, i - 1);
        let b = s.substring_char(i, chars.len());
        Some((a, b))
    } else {
        None
    }
}

/// Whether `p` occurs in `s`.
pub open spec fn contains_spec(s: Seq<char>, p: Seq<char>) -> bool {
    exists|i: int|
        0 <= i <= s.len() - p.len() && #[trigger] s.subrange(i, i + p.len()) == p
}

/// A part of a text occurs in it.
pub proof fn part_occurs(before: Seq<char>, part: Seq<char>, after: Seq<char>)
    ensures
        contains_spec(before + part + after, part),
{
    let s = before + part + after;
    let i = before.len() as int;
    assert(s.subrange(i, i + part.len()) =~= part);
}

/// What occurs in a part of a text occurs in the text.
pub proof fn part_of_a_part_occurs(
    before: Seq<char>,
    part: Seq<char>,
    after: Seq<char>,
    inner: Seq<char>,
)
    requires
        contains_spec(part, inner),
    ensures
        contains_spec(before + part + after, inner),
{
    let s = before + part + after;
    let i = choose|i: int|
        0 <= i <= part.len() - inner.len() && #[trigger] part.subrange(i, i + inner.len()) == inner;
    let j = before.len() + i;
    assert(s.subrange(j, j + inner.len()) =~= part.subrange(i, i + inner.len()));
}

/// What occurs in one of two texts occurs in the two together.
pub proof fn both_parts_occur(a: Seq<char>, b: Seq<char>)
    ensures
        forall|t: Seq<char>| #[trigger] contains_spec(a, t) ==> contains_spec(a + b, t),
        forall|t: Seq<char>| #[trigger] contains_spec(b, t) ==> contains_spec(a + b, t),
        contains_spec(a + b, a),
        contains_spec(a + b, b),
{
    let e = Seq::<char>::empty();
    assert(e + a + b =~= a + b);
    assert(a + b + e =~= a + b);
    assert forall|t: Seq<char>| #[trigger] contains_spec(a, t) implies contains_spec(a + b, t) by {
        part_of_a_part_occurs(e, a, b, t);
    }
    assert forall|t: Seq<char>| #[trigger] contains_spec(b, t) implies contains_spec(a + b, t) by {
        part_of_a_part_occurs(a, b, e, t);
    }
    part_occurs(e, a, b);
    part_occurs(a, b, e);
}

/// Whether `p` occurs in `s`.
pub(crate) fn contains_text(s: &str, p: &str) -> (r: bool)
    ensures
        r == contains_spec(s@, p@),
{
    let n: usize = s.unicode_len();
    let m: usize = p.unicode_len();
    if m > n {
        return false;
    }
    let mut i: usize = 0;
    while i <= n - m
        invariant
            n == s@.len(),
            m == p@.len(),
            m <= n,
            i <= n - m + 1,
            forall|j: int| 0 <= j < i ==> #[trigger] s@.subrange(j, j + m) != p@,
        decreases n - m + 1 - i,
    {
        let piece = s.substring_char(i, i + m);
        if same(piece, p) {
            assert(s@.subrange(i as int, i + p@.len()) == p@);
            return true;
        }
        if i == n - m {
            return false;
        }
        i += 1;
    }
    false
}

// ─── Splitting and joining ──────────────────────────────────────────────────

/// The pieces of `s` between the occurrences of `c`, the empty ones included.
pub open spec fn split_spec(s: Seq<char>, c: char) -> Seq<Seq<char>>
    decreases s.len(),
{
    match split_once_spec(s, c) {
        None => seq![s],
        Some((head, tail)) => {
            if tail.len() < s.len() {
                seq![head] + split_spec(tail, c)
            } else {
                seq![s]
            }
        },
    }
}

/// The pieces of `s` between the occurrences of `c`, the empty ones included.
pub(crate) fn split(s: &str, c: char) -> (r: Vec<String>)
    ensures
        texts(r@) == split_spec(s@, c),
{
    let chars = chars_of(s);
    let mut out: Vec<String> = Vec::new();
    let mut start: usize = 0;
    assert(s@.skip(0) =~= s@);
    assert(texts(out@) + split_spec(s@, c) =~= split_spec(s@, c));
    loop
        invariant_except_break
            texts(out@) + split_spec(s@.skip(start as int), c) == split_spec(s@, c),
        invariant
            chars@ == s@,
            start <= s@.len(),
        ensures
            texts(out@) == split_spec(s@, c),
        decreases s@.len() - start,
    {
        let i: usize = position(&chars, start, c);
        let piece = string_of(&chars, start, i);
        let ghost before = texts(out@);
        let ghost rest = s@.skip(start as int);
        out.push(piece);
        assert(texts(out@) =~= before.push(piece@));
        assert(rest.take(i - start) =~= piece@);
        if i == chars.len() {
            proof {
                assert(split_spec(rest, c) =~= seq![rest]);
                assert(rest =~= piece@);
                assert(texts(out@) =~= before + seq![rest]);
            }
            break;
        }
        proof {
            assert(rest.skip(i - start + 1) =~= s@.skip(i + 1));
            assert(split_spec(rest, c) == seq![piece@] + split_spec(s@.skip(i + 1), c));
            assert(before + (seq![piece@] + split_spec(s@.skip(i + 1), c))
                =~= texts(out@) + split_spec(s@.skip(i + 1), c));
        }
        start = i + 1;
    }
    out
}

/// A line without the carriage return that ends it.
pub open spec fn strip_cr(s: Seq<char>) -> Seq<char> {
    if s.len() > 0 && s.last() == '\r' {
        s.drop_last()
    } else {
        s
    }
}

/// The lines of `s`: a line ends with `\n` or `\r\n`, and the last one may lack
/// its ending.
pub open spec fn lines_spec(s: Seq<char>) -> Seq<Seq<char>>
    decreases s.len(),
{
    if s.len() == 0 {
        Seq::empty()
    } else {
        match split_once_spec(s, '\n') {
            None => seq![s],
            Some((head, tail)) => {
                if tail.len() < s.len() {
                    seq![strip_cr(head)] + lines_spec(tail)
                } else {
                    seq![s]
                }
            },
        }
    }
}

/// The lines of `s`.
pub(crate) fn lines(s: &str) -> (r: Vec<String>)
    ensures
        texts(r@) == lines_spec(s@),
{
    let chars = chars_of(s);
    let mut out: Vec<String> = Vec::new();
    let mut start: usize = 0;
    assert(s@.skip(0) =~= s@);
    assert(texts(out@) + lines_spec(s@) =~= lines_spec(s@));
    while start < chars.len()
        invariant
            chars@ == s@,
            start <= s@.len(),
            texts(out@) + lines_spec(s@.skip(start as int)) == lines_spec(s@),
        decreases s@.len() - start,
    {
        let i: usize = position(&chars, start, '\n');
        let ghost before = texts(out@);
        let ghost rest = s@.skip(start as int);
        if i == chars.len() {
            let piece = string_of(&chars, start, i);
            out.push(piece);
            proof {
                assert(texts(out@) =~= before.push(piece@));
                assert(rest =~= piece@);
                assert(lines_spec(rest) =~= seq![rest]);
                assert(s@.skip(i as int) =~= Seq::<char>::empty());
                assert(texts(out@) + lines_spec(s@.skip(i as int)) =~= before + seq![rest]);
            }
            start = i;
        } else {
            let end: usize = if i > start && chars[i - 1] == '\r' {
                i - 1
            } else {
                i
            };
            let piece = string_of(&chars, start, end);
            out.push(piece);
            proof {
                assert(texts(out@) =~= before.push(piece@));
                assert(rest.take(i - start) =~= s@.subrange(start as int, i as int));
                assert(strip_cr(rest.take(i - start)) =~= piece@);
                assert(rest.skip(i - start + 1) =~= s@.skip(i + 1));
                assert(lines_spec(rest) == seq![piece@] + lines_spec(s@.skip(i + 1)));
                assert(before + (seq![piece@] + lines_spec(s@.skip(i + 1)))
                    =~= texts(out@) + lines_spec(s@.skip(i + 1)));
            }
            start = i + 1;
        }
    }
    proof {
        assert(s@.skip(start as int) =~= Seq::<char>::empty());
        assert(texts(out@) + lines_spec(s@.skip(start as int)) =~= texts(out@));
    }
    out
}

/// Lines, each with a newline behind it.
pub open spec fn ended_lines(v: Seq<Seq<char>>, n: int) -> Seq<char>
    decreases n,
{
    if n <= 0 {
        Seq::empty()
    } else {
        ended_lines(v, n - 1) + v[n - 1] + "\n"@
    }
}

/// Whether nothing or a line ending stands at the end of a text.
pub open spec fn is_ended(s: Seq<char>) -> bool {
    s.len() == 0 || s.last() == '\n'
}

/// Whether a text is a line: it holds no newline, and no carriage return stands at
/// its end.
pub open spec fn is_line(s: Seq<char>) -> bool {
    !s.contains('\n') && !(s.len() > 0 && s.last() == '\r')
}

/// No line of a text holds a newline, and there is a line where there is text.
/// Without carriage returns in the text, its lines are lines.
pub proof fn lines_are_lines(s: Seq<char>)
    ensures
        s.len() > 0 ==> lines_spec(s).len() > 0,
        forall|i: int| 0 <= i < lines_spec(s).len() ==> !(#[trigger] lines_spec(s)[i]).contains('\n'),
        !s.contains('\r') ==> forall|i: int|
            0 <= i < lines_spec(s).len() ==> is_line(#[trigger] lines_spec(s)[i]),
    decreases s.len(),
{
    if s.len() > 0 {
        let all = lines_spec(s);
        index_of_bounds(s, '\n');
        let i = index_of(s, '\n') as int;
        if i < s.len() {
            let head = s.take(i);
            let tail = s.skip(i + 1);
            lines_are_lines(tail);
            let first = strip_cr(head);
            assert(all == seq![first] + lines_spec(tail));
            assert(!first.contains('\n')) by {
                if first.contains('\n') {
                    let j = choose|j: int| 0 <= j < first.len() && first[j] == '\n';
                    assert(s[j] == '\n');
                }
            }
            if !s.contains('\r') {
                if first.len() > 0 {
                    assert(first.last() == s[first.len() - 1]);
                    assert(s.contains(first.last()));
                }
                if tail.contains('\r') {
                    let j = choose|j: int| 0 <= j < tail.len() && tail[j] == '\r';
                    assert(s[i + 1 + j] == '\r');
                }
            }
            assert forall|k: int| 0 <= k < all.len() implies !(#[trigger] all[k]).contains('\n')
                && (!s.contains('\r') ==> is_line(all[k])) by {
                if k > 0 {
                    assert(all[k] == lines_spec(tail)[k - 1]);
                }
            }
        } else {
            assert(all == seq![s]);
            assert(!s.contains('\n')) by {
                if s.contains('\n') {
                    let j = choose|j: int| 0 <= j < s.len() && s[j] == '\n';
                    assert(s[j] != '\n');
                }
            }
            if !s.contains('\r') {
                assert(s.contains(s.last()));
            }
        }
    }
}

/// A line that is added to ended lines is the last one read. A carriage return at its
/// end is taken for a part of the line ending.
pub proof fn added_line(content: Seq<char>, line: Seq<char>)
    requires
        is_ended(content),
        !line.contains('\n'),
    ensures
        lines_spec(content + line.push('\n')) == lines_spec(content).push(strip_cr(line)),
        is_line(line) ==> strip_cr(line) == line,
    decreases content.len(),
{
    let ended = line.push('\n');
    let all = content + ended;
    if content.len() == 0 {
        assert(all =~= ended);
        assert forall|j: int| 0 <= j < line.len() implies ended[j] != '\n' by {
            assert(line[j] == ended[j]);
            assert(line.contains(line[j]));
        }
        index_of_is(ended, '\n', line.len() as int);
        assert(ended.take(line.len() as int) =~= line);
        assert(ended.skip(line.len() as int + 1) =~= Seq::<char>::empty());
        assert(split_once_spec(all, '\n') == Some((line, Seq::<char>::empty())));
        assert(lines_spec(Seq::<char>::empty()) =~= Seq::empty());
        assert(lines_spec(all) =~= seq![strip_cr(line)]);
        assert(lines_spec(content).push(strip_cr(line)) =~= seq![strip_cr(line)]);
    } else {
        index_of_bounds(content, '\n');
        let i = index_of(content, '\n') as int;
        if i == content.len() {
            assert(content[content.len() - 1] == '\n');
        }
        assert forall|j: int| 0 <= j < i implies all[j] != '\n' by {
            assert(all[j] == content[j]);
        }
        assert(all[i] == content[i]);
        index_of_is(all, '\n', i);
        let tail = content.skip(i + 1);
        assert(all.take(i) =~= content.take(i));
        assert(all.skip(i + 1) =~= tail + ended);
        if tail.len() > 0 {
            assert(tail.last() == content.last());
        }
        added_line(tail, line);
        assert(lines_spec(all) =~= lines_spec(content).push(strip_cr(line)));
    }
}

/// The lines without a carriage return at their ends.
pub open spec fn stripped(v: Seq<Seq<char>>) -> Seq<Seq<char>> {
    Seq::new(v.len(), |i: int| strip_cr(v[i]))
}

/// Ended lines are read as they are, but for a carriage return at their ends.
pub proof fn ended_lines_are_read(v: Seq<Seq<char>>, n: int)
    requires
        0 <= n <= v.len(),
        forall|i: int| 0 <= i < v.len() ==> !(#[trigger] v[i]).contains('\n'),
    ensures
        is_ended(ended_lines(v, n)),
        lines_spec(ended_lines(v, n)) == stripped(v).take(n),
    decreases n,
{
    reveal_strlit("\n");
    if n == 0 {
        assert(lines_spec(ended_lines(v, n)) =~= stripped(v).take(n));
    } else {
        ended_lines_are_read(v, n - 1);
        let head = ended_lines(v, n - 1);
        assert(ended_lines(v, n) =~= head + v[n - 1].push('\n'));
        added_line(head, v[n - 1]);
        assert(stripped(v).take(n - 1).push(strip_cr(v[n - 1])) =~= stripped(v).take(n));
        assert(ended_lines(v, n).last() == '\n');
    }
}

/// Where no carriage return stands at the end of a line, there is none to strip.
pub proof fn lines_are_stripped(v: Seq<Seq<char>>)
    requires
        forall|i: int| 0 <= i < v.len() ==> is_line(#[trigger] v[i]),
    ensures
        stripped(v) == v,
{
    assert forall|i: int| 0 <= i < v.len() implies stripped(v)[i] == v[i] by {
        assert(is_line(v[i]));
    }
    assert(stripped(v) =~= v);
}

/// The parts, one after the other, with `sep` between them.
pub open spec fn join_spec(parts: Seq<Seq<char>>, sep: Seq<char>) -> Seq<char>
    decreases parts.len(),
{
    if parts.len() == 0 {
        Seq::empty()
    } else if parts.len() == 1 {
        parts[0]
    } else {
        join_spec(parts.drop_last(), sep) + sep + parts.last()
    }
}

/// The parts, one after the other, with `sep` between them.
pub(crate) fn join(parts: &Vec<String>, sep: &str) -> (r: String)
    ensures
        r@ == join_spec(texts(parts@), sep@),
{
    let mut out = String::new();
    let mut i: usize = 0;
    while i < parts.len()
        invariant
            i <= parts@.len(),
            out@ == join_spec(texts(parts@).take(i as int), sep@),
        decreases parts@.len() - i,
    {
        let ghost head = texts(parts@).take(i as int);
        let ghost next = texts(parts@).take(i + 1);
        assert(next.drop_last() =~= head);
        assert(next.last() == parts@[i as int]@);
        if i > 0 {
            out.append(sep);
        }
        out.append(&parts[i]);
        proof {
            if i == 0 {
                assert(out@ =~= next[0]);
            }
        }
        i += 1;
    }
    assert(texts(parts@).take(i as int) =~= texts(parts@));
    out
}

// ─── White space ────────────────────────────────────────────────────────────

/// `s` without the white space at its start.
pub open spec fn trim_start_spec(s: Seq<char>) -> Seq<char>
    decreases s.len(),
{
    if s.len() > 0 && is_white_space(s[0]) {
        trim_start_spec(s.skip(1))
    } else {
        s
    }
}

/// `s` without the white space at its end.
pub open spec fn trim_end_spec(s: Seq<char>) -> Seq<char>
    decreases s.len(),
{
    if s.len() > 0 && is_white_space(s.last()) {
        trim_end_spec(s.drop_last())
    } else {
        s
    }
}

/// `s` without the white space at its two ends.
pub open spec fn trim_spec(s: Seq<char>) -> Seq<char> {
    trim_end_spec(trim_start_spec(s))
}

/// `s` without the white space at its start.
pub(crate) fn trim_start<'a>(s: &'a str) -> (r: &'a str)
    ensures
        r@ == trim_start_spec(s@),
{
    let chars = chars_of(s);
    let mut i: usize = 0;
    assert(s@.skip(0) =~= s@);
    while i < chars.len() && chars[i].is_whitespace()
        invariant
            i <= s@.len(),
            chars@ == s@,
            trim_start_spec(s@.skip(i as int)) == trim_start_spec(s@),
        decreases s@.len() - i,
    {
        assert(s@.skip(i as int).skip(1) =~= s@.skip(i + 1));
        i += 1;
    }
    let r = s.substring_char(i, chars.len());
    assert(r@ =~= s@.skip(i as int));
    r
}

/// `s` without the white space at its end.
pub(crate) fn trim_end<'a>(s: &'a str) -> (r: &'a str)
    ensures
        r@ == trim_end_spec(s@),
{
    let chars = chars_of(s);
    let mut i: usize = chars.len();
    assert(s@.take(i as int) =~= s@);
    while i > 0 && chars[i - 1].is_whitespace()
        invariant
            i <= s@.len(),
            chars@ == s@,
            trim_end_spec(s@.take(i as int)) == trim_end_spec(s@),
        decreases i,
    {
        assert(s@.take(i as int).drop_last() =~= s@.take(i - 1));
        i -= 1;
    }
    let r = s.substring_char(0, i);
    assert(r@ =~= s@.take(i as int));
    r
}

/// `s` without the white space at its two ends.
pub(crate) fn trim<'a>(s: &'a str) -> (r: &'a str)
    ensures
        r@ == trim_spec(s@),
{
    trim_end(trim_start(s))
}

/// The number of characters before the first white space in `s`.
pub open spec fn word_len(s: Seq<char>) -> nat
    decreases s.len(),
{
    if s.len() == 0 || is_white_space(s[0]) {
        0
    } else {
        1 + word_len(s.skip(1))
    }
}

pub proof fn word_len_bound(s: Seq<char>)
    ensures
        word_len(s) <= s.len(),
    decreases s.len(),
{
    if s.len() > 0 && !is_white_space(s[0]) {
        word_len_bound(s.skip(1));
    }
}

pub proof fn trim_start_shorter(s: Seq<char>)
    ensures
        trim_start_spec(s).len() <= s.len(),
        trim_start_spec(s).len() > 0 ==> !is_white_space(trim_start_spec(s)[0]),
    decreases s.len(),
{
    if s.len() > 0 && is_white_space(s[0]) {
        trim_start_shorter(s.skip(1));
    }
}

/// The words of `s`: its longest runs of characters other than white space.
pub open spec fn words_spec(s: Seq<char>) -> Seq<Seq<char>>
    decreases s.len(),
{
    let t = trim_start_spec(s);
    let n = word_len(t) as int;
    if n == 0 || t.skip(n).len() >= s.len() {
        Seq::empty()
    } else {
        seq![t.take(n)] + words_spec(t.skip(n))
    }
}

/// The words of `s`.
pub(crate) fn split_whitespace(s: &str) -> (r: Vec<String>)
    ensures
        texts(r@) == words_spec(s@),
{
    let chars = chars_of(s);
    let mut out: Vec<String> = Vec::new();
    let mut i: usize = 0;
    assert(s@.skip(0) =~= s@);
    assert(texts(out@) + words_spec(s@) =~= words_spec(s@));
    loop
        invariant
            chars@ == s@,
            i <= s@.len(),
            texts(out@) + words_spec(s@.skip(i as int)) == words_spec(s@),
        ensures
            texts(out@) == words_spec(s@),
        decreases s@.len() - i,
    {
        let ghost rest = s@.skip(i as int);
        let mut a: usize = i;
        while a < chars.len() && chars[a].is_whitespace()
            invariant
                i <= a <= s@.len(),
                chars@ == s@,
                rest == s@.skip(i as int),
                trim_start_spec(s@.skip(a as int)) == trim_start_spec(rest),
            decreases s@.len() - a,
        {
            assert(s@.skip(a as int).skip(1) =~= s@.skip(a + 1));
            a += 1;
        }
        let ghost t = s@.skip(a as int);
        assert(trim_start_spec(rest) == t);
        let mut b: usize = a;
        while b < chars.len() && !chars[b].is_whitespace()
            invariant
                a <= b <= s@.len(),
                chars@ == s@,
                t == s@.skip(a as int),
                (b - a) + word_len(s@.skip(b as int)) == word_len(t),
            decreases s@.len() - b,
        {
            assert(s@.skip(b as int).skip(1) =~= s@.skip(b + 1));
            b += 1;
        }
        assert(word_len(t) == b - a);
        let ghost before = texts(out@);
        if a == b {
            proof {
                assert(words_spec(rest) =~= Seq::<Seq<char>>::empty());
                assert(texts(out@) + words_spec(rest) =~= texts(out@));
            }
            break;
        }
        let word = string_of(&chars, a, b);
        out.push(word);
        proof {
            assert(texts(out@) =~= before.push(word@));
            assert(t.take(b - a) =~= word@);
            assert(t.skip(b - a) =~= s@.skip(b as int));
            assert(words_spec(rest) == seq![word@] + words_spec(s@.skip(b as int)));
            assert(before + (seq![word@] + words_spec(s@.skip(b as int)))
                =~= texts(out@) + words_spec(s@.skip(b as int)));
        }
        i = b;
    }
    out
}

// ─── Encoding ───────────────────────────────────────────────────────────────

/// The number of bytes of a character in UTF-8.
pub open spec fn char_width(c: char) -> nat {
    if c as u32 <= 0x7f {
        1
    } else if c as u32 <= 0x7ff {
        2
    } else if c as u32 <= 0xffff {
        3
    } else {
        4
    }
}

/// The length of the UTF-8 encoding of `s`, in bytes.
pub open spec fn byte_len(s: Seq<char>) -> nat
    decreases s.len(),
{
    if s.len() == 0 {
        0
    } else {
        char_width(s[0]) + byte_len(s.skip(1))
    }
}

proof fn encoding_len(s: Seq<char>)
    ensures
        vstd::utf8::encode_utf8(s).len() == byte_len(s),
    decreases s.len(),
{
    if s.len() > 0 {
        assert(s.drop_first() =~= s.skip(1));
        encoding_len(s.skip(1));
        let v = s[0] as u32;
        vstd::utf8::char_is_scalar(s[0]);
        assert(vstd::utf8::encode_scalar(v).len() == char_width(s[0]));
    }
}

/// The length of the UTF-8 encoding of `s`, in bytes.
pub(crate) fn utf8_len(s: &str) -> (r: usize)
    ensures
        r == byte_len(s@),
{
    proof {
        encoding_len(s@);
    }
    s.as_bytes().len()
}

/// The number of characters at the start of `s` that fit in `n` bytes.
pub open spec fn fitting(s: Seq<char>, n: nat) -> nat
    decreases s.len(),
{
    if s.len() == 0 || char_width(s[0]) > n {
        0
    } else {
        1 + fitting(s.skip(1), (n - char_width(s[0])) as nat)
    }
}

/// The longest start of `s` that fits in `n` bytes.
pub open spec fn byte_prefix_spec(s: Seq<char>, n: nat) -> Seq<char> {
    s.take(fitting(s, n) as int)
}

pub proof fn fitting_bound(s: Seq<char>, n: nat)
    ensures
        fitting(s, n) <= s.len(),
    decreases s.len(),
{
    if s.len() > 0 && char_width(s[0]) <= n {
        fitting_bound(s.skip(1), (n - char_width(s[0])) as nat);
    }
}

/// The longest start of `s` that fits in `n` bytes.
pub(crate) fn byte_prefix<'a>(s: &'a str, n: usize) -> (r: &'a str)
    ensures
        r@ == byte_prefix_spec(s@, n as nat),
{
    let chars = chars_of(s);
    let mut left: usize = n;
    let mut i: usize = 0;
    assert(s@.skip(0) =~= s@);
    while i < chars.len()
        invariant_except_break
            fitting(s@, n as nat) == i + fitting(s@.skip(i as int), left as nat),
        invariant
            i <= s@.len(),
            chars@ == s@,
        ensures
            fitting(s@, n as nat) == i,
        decreases s@.len() - i,
    {
        let c = chars[i];
        let w: usize = if c as u32 <= 0x7f {
            1
        } else if c as u32 <= 0x7ff {
            2
        } else if c as u32 <= 0xffff {
            3
        } else {
            4
        };
        assert(s@.skip(i as int)[0] == c);
        if w > left {
            break;
        }
        assert(s@.skip(i as int).skip(1) =~= s@.skip(i + 1));
        left = left - w;
        i += 1;
    }
    s.substring_char(0, i)
}

/// The first `n` characters of `s`.
pub open spec fn char_prefix_spec(s: Seq<char>, n: nat) -> Seq<char> {
    if s.len() <= n {
        s
    } else {
        s.take(n as int)
    }
}

/// The first `n` characters of `s`.
pub(crate) fn char_prefix<'a>(s: &'a str, n: usize) -> (r: &'a str)
    ensures
        r@ == char_prefix_spec(s@, n as nat),
{
    let len: usize = s.unicode_len();
    if len <= n {
        s
    } else {
        s.substring_char(0, n)
    }
}

/// The text that the debug notation of a string shows: its characters between
/// double quotes, with escapes.
pub uninterp spec fn debug_text(s: Seq<char>) -> Seq<char>;

/// `<str as Debug>::fmt`, through `format!`: the debug notation of a string
/// depends on its characters alone. How each is escaped is not stated.
#[verifier::external_body]
pub(crate) fn debug_str(s: &str) -> (r: String)
    ensures
        r@ == debug_text(s@),
{
    format!("{:?}", s)
}

// ─── Padding ────────────────────────────────────────────────────────────────

/// A run of `n` spaces.
pub open spec fn spaces(n: int) -> Seq<char> {
    Seq::new(if n > 0 { n as nat } else { 0 }, |i: int| ' ')
}

/// `s` followed by spaces up to `width` characters.
pub open spec fn pad_right_spec(s: Seq<char>, width: nat) -> Seq<char> {
    s + spaces(width - s.len())
}

/// `s` preceded by spaces up to `width` characters.
pub open spec fn pad_left_spec(s: Seq<char>, width: nat) -> Seq<char> {
    spaces(width - s.len()) + s
}

/// `s` followed by spaces up to `width` characters.
pub(crate) fn pad_right(s: &str, width: usize) -> (r: String)
    ensures
        r@ == pad_right_spec(s@, width as nat),
{
    let mut out = String::from_str(s);
    let n: usize = s.unicode_len();
    let mut i: usize = n;
    while i < width
        invariant
            n == s@.len(),
            n <= i,
            i <= width || i == n,
            out@ == s@ + spaces(i - n),
        decreases width - i,
    {
        out.push(' ');
        i += 1;
        assert(out@ =~= s@ + spaces(i - n));
    }
    assert(out@ =~= pad_right_spec(s@, width as nat));
    out
}

/// `s` preceded by spaces up to `width` characters.
pub(crate) fn pad_left(s: &str, width: usize) -> (r: String)
    ensures
        r@ == pad_left_spec(s@, width as nat),
{
    let mut out = String::new();
    let n: usize = s.unicode_len();
    let mut i: usize = n;
    while i < width
        invariant
            n == s@.len(),
            n <= i,
            i <= width || i == n,
            out@ == spaces(i - n),
        decreases width - i,
    {
        out.push(' ');
        i += 1;
        assert(out@ =~= spaces(i - n));
    }
    out.append(s);
    assert(out@ =~= pad_left_spec(s@, width as nat));
    out
}

/// Adds `s` followed by spaces up to `width` characters.
pub(crate) fn put_padded(out: &mut String, s: &str, width: usize)
    ensures
        final(out)@ == old(out)@ + pad_right_spec(s@, width as nat),
{
    let p = pad_right(s, width);
    out.append(&p);
}

// ─── Order ──────────────────────────────────────────────────────────────────

/// The lexicographic order of texts by code point, which is also the order of
/// their UTF-8 encodings.
pub open spec fn text_le(a: Seq<char>, b: Seq<char>) -> bool
    decreases a.len(),
{
    if a.len() == 0 {
        true
    } else if b.len() == 0 {
        false
    } else if a[0] != b[0] {
        a[0] < b[0]
    } else {
        text_le(a.skip(1), b.skip(1))
    }
}

/// The order of texts is reflexive.
pub proof fn text_le_reflexive(a: Seq<char>)
    ensures
        text_le(a, a),
    decreases a.len(),
{
    if a.len() > 0 {
        text_le_reflexive(a.skip(1));
    }
}

/// The order of texts is total.
pub proof fn text_le_total(a: Seq<char>, b: Seq<char>)
    ensures
        text_le(a, b) || text_le(b, a),
    decreases a.len(),
{
    if a.len() > 0 && b.len() > 0 && a[0] == b[0] {
        text_le_total(a.skip(1), b.skip(1));
    }
}

/// The order of texts is antisymmetric.
pub proof fn text_le_antisymmetric(a: Seq<char>, b: Seq<char>)
    requires
        text_le(a, b),
        text_le(b, a),
    ensures
        a == b,
    decreases a.len(),
{
    if a.len() == 0 || b.len() == 0 {
        assert(a =~= b);
    } else {
        assert(a[0] == b[0]);
        text_le_antisymmetric(a.skip(1), b.skip(1));
        assert(a =~= seq![a[0]] + a.skip(1));
        assert(b =~= seq![b[0]] + b.skip(1));
    }
}

/// The order of texts is transitive.
pub proof fn text_le_transitive(a: Seq<char>, b: Seq<char>, c: Seq<char>)
    requires
        text_le(a, b),
        text_le(b, c),
    ensures
        text_le(a, c),
    decreases a.len(),
{
    if a.len() > 0 && b.len() > 0 && c.len() > 0 && a[0] == b[0] && b[0] == c[0] {
        text_le_transitive(a.skip(1), b.skip(1), c.skip(1));
    }
}

/// Whether `a` comes before or equals `b` in the order of texts.
pub(crate) fn le(a: &str, b: &str) -> (r: bool)
    ensures
        r == text_le(a@, b@),
{
    let x = chars_of(a);
    let y = chars_of(b);
    let mut i: usize = 0;
    assert(a@.skip(0) =~= a@);
    assert(b@.skip(0) =~= b@);
    while i < x.len() && i < y.len() && x[i] == y[i]
        invariant
            x@ == a@,
            y@ == b@,
            i <= a@.len(),
            i <= b@.len(),
            text_le(a@.skip(i as int), b@.skip(i as int)) == text_le(a@, b@),
        decreases a@.len() - i,
    {
        assert(a@.skip(i as int).skip(1) =~= a@.skip(i + 1));
        assert(b@.skip(i as int).skip(1) =~= b@.skip(i + 1));
        i += 1;
    }
    if i == x.len() {
        true
    } else if i == y.len() {
        false
    } else {
        x[i] < y[i]
    }
}

// ─── Lists of strings ───────────────────────────────────────────────────────

/// Whether `s` is one of the strings of `v`.
pub(crate) fn has(v: &Vec<String>, s: &str) -> (r: bool)
    ensures
        r == texts(v@).contains(s@),
{
    let mut i: usize = 0;
    while i < v.len()
        invariant
            i <= v@.len(),
            forall|j: int| 0 <= j < i ==> v@[j]@ != s@,
        decreases v@.len() - i,
    {
        if same(&v[i], s) {
            assert(texts(v@)[i as int] == s@);
            return true;
        }
        i += 1;
    }
    assert forall|j: int| 0 <= j < texts(v@).len() implies texts(v@)[j] != s@ by {}
    false
}

/// A copy of a list of strings.
pub(crate) fn copy_all(v: &Vec<String>) -> (r: Vec<String>)
    ensures
        texts(r@) == texts(v@),
{
    let mut out: Vec<String> = Vec::new();
    let mut i: usize = 0;
    while i < v.len()
        invariant
            i <= v@.len(),
            texts(out@) == texts(v@).take(i as int),
        decreases v@.len() - i,
    {
        let ghost before = texts(out@);
        out.push(v[i].clone());
        i += 1;
        assert(texts(out@) =~= before.push(v@[i - 1]@));
        assert(texts(out@) =~= texts(v@).take(i as int));
    }
    assert(texts(v@).take(i as int) =~= texts(v@));
    out
}

/// A copy of an optional string.
pub(crate) fn copy_opt(o: &Option<String>) -> (r: Option<String>)
    ensures
        opt_text(r) == opt_text(*o),
{
    match o {
        Some(s) => Some(s.clone()),
        None => None,
    }
}

/// A padded text begins or ends with the text, is filled with spaces and is at least as
/// wide as asked.
pub proof fn padding_keeps_the_text(s: Seq<char>, width: nat)
    ensures
        pad_right_spec(s, width).len() == (if s.len() > width {
            s.len()
        } else {
            width
        }),
        pad_left_spec(s, width).len() == pad_right_spec(s, width).len(),
        pad_right_spec(s, width).take(s.len() as int) == s,
        pad_left_spec(s, width).skip(pad_left_spec(s, width).len() - s.len()) == s,
        contains_spec(pad_right_spec(s, width), s),
        contains_spec(pad_left_spec(s, width), s),
        forall|i: int|
            s.len() <= i < pad_right_spec(s, width).len() ==> #[trigger] pad_right_spec(s, width)[i]
                == ' ',
{
    let r = pad_right_spec(s, width);
    let l = pad_left_spec(s, width);
    assert(r.take(s.len() as int) =~= s);
    assert(l.skip(l.len() - s.len()) =~= s);
    part_occurs(Seq::empty(), s, r.skip(s.len() as int));
    assert(r =~= Seq::<char>::empty() + s + r.skip(s.len() as int));
    part_occurs(l.take(l.len() - s.len()), s, Seq::empty());
    assert(l =~= l.take(l.len() - s.len()) + s + Seq::<char>::empty());
}

/// The length in bytes is that of the UTF-8 encoding.
pub proof fn byte_len_is_that_of_the_encoding(s: Seq<char>)
    ensures
        byte_len(s) == vstd::utf8::encode_utf8(s).len(),
{
    encoding_len(s);
}

/// Trimming takes away white space at the ends and nothing else.
pub proof fn trimming_keeps_the_middle(s: Seq<char>)
    ensures
        contains_spec(s, trim_spec(s)),
        trim_spec(s).len() > 0 ==> !is_white_space(trim_spec(s)[0]) && !is_white_space(
            trim_spec(s).last(),
        ),
        s.len() > 0 && !is_white_space(s[0]) && !is_white_space(s.last()) ==> trim_spec(s) == s,
        (forall|i: int| 0 <= i < s.len() ==> is_white_space(#[trigger] s[i])) ==> trim_spec(s).len()
            == 0,
{
    let t = trim_start_spec(s);
    trim_start_takes_white_space(s);
    trim_end_takes_white_space(t);
    let r = trim_spec(s);
    let k = (s.len() - t.len()) as int;
    assert(s =~= s.take(k) + r + s.skip(k + r.len())) by {
        assert(t =~= s.skip(k));
        assert(r =~= t.take(r.len() as int));
    }
    part_occurs(s.take(k), r, s.skip(k + r.len()));
    if r.len() > 0 {
        assert(r[0] == t[0]);
    }
    if forall|i: int| 0 <= i < s.len() ==> is_white_space(#[trigger] s[i]) {
        if t.len() > 0 {
            assert(t[0] == s[k]);
        }
    }
    if s.len() > 0 && !is_white_space(s[0]) && !is_white_space(s.last()) {
        assert(t == s);
        assert(r == s);
    }
}

proof fn trim_start_takes_white_space(s: Seq<char>)
    ensures
        trim_start_spec(s).len() <= s.len(),
        trim_start_spec(s) == s.skip(s.len() - trim_start_spec(s).len()),
        trim_start_spec(s).len() > 0 ==> !is_white_space(trim_start_spec(s)[0]),
    decreases s.len(),
{
    if s.len() > 0 && is_white_space(s[0]) {
        trim_start_takes_white_space(s.skip(1));
        let t = trim_start_spec(s);
        assert(s.skip(1).skip(s.len() - 1 - t.len()) =~= s.skip(s.len() - t.len()));
    } else {
        assert(s.skip(0) =~= s);
    }
}

proof fn trim_end_takes_white_space(s: Seq<char>)
    ensures
        trim_end_spec(s).len() <= s.len(),
        trim_end_spec(s) == s.take(trim_end_spec(s).len() as int),
        trim_end_spec(s).len() > 0 ==> !is_white_space(trim_end_spec(s).last()),
    decreases s.len(),
{
    if s.len() > 0 && is_white_space(s.last()) {
        trim_end_takes_white_space(s.drop_last());
        let t = trim_end_spec(s);
        assert(s.drop_last().take(t.len() as int) =~= s.take(t.len() as int));
    } else {
        assert(s.take(s.len() as int) =~= s);
    }
}

} // verus!
