//! Character-level text helpers.
//!
//! Every function here speaks of text as a sequence of characters and states
//! its result exactly.

use vstd::prelude::*;
use vstd::string::*;

verus! {

/// `String::push` appends one character at the end of the string.
pub assume_specification[ String::push ](s: &mut String, c: char)
    ensures
        final(s)@ == old(s)@.push(c),
;

/// The characters of `s`, in order.
pub fn chars_of(s: &str) -> (v: Vec<char>)
    ensures
        v@ == s@,
{
    let mut v: Vec<char> = Vec::new();
    for c in it: s.chars()
        invariant
            v@ == it.seq().take(it.index()),
            it.seq() == s@,
    {
        v.push(c);
    }
    v
}

/// The string made of `v[from]`, ..., `v[to - 1]`.
pub fn string_of(v: &Vec<char>, from: usize, to: usize) -> (s: String)
    requires
        from <= to <= v.len(),
    ensures
        s@ == v@.subrange(from as int, to as int),
{
    let mut s: String = String::new();
    let mut i: usize = from;
    assert(s@ =~= v@.subrange(from as int, from as int));
    while i < to
        invariant
            from <= i <= to <= v.len(),
            s@ == v@.subrange(from as int, i as int),
        decreases to - i,
    {
        s.push(v[i]);
        assert(v@.subrange(from as int, i as int).push(v@[i as int]) =~= v@.subrange(
            from as int,
            i + 1,
        ));
        i = i + 1;
    }
    s
}

/// Whether `a` and `b` hold the same characters.
pub fn same(a: &str, b: &str) -> (r: bool)
    ensures
        r == (a@ == b@),
{
    let x: Vec<char> = chars_of(a);
    let y: Vec<char> = chars_of(b);
    if x.len() != y.len() {
        return false;
    }
    let mut i: usize = 0;
    while i < x.len()
        invariant
            i <= x.len(),
            x.len() == y.len(),
            x@ == a@,
            y@ == b@,
            forall|k: int| 0 <= k < i ==> x@[k] == y@[k],
        decreases x.len() - i,
    {
        if x[i] != y[i] {
            return false;
        }
        i = i + 1;
    }
    assert(a@ =~= b@);
    true
}

/// Whether `c` occurs in `s`.
pub fn has_char(s: &str, c: char) -> (r: bool)
    ensures
        r == s@.contains(c),
{
    let v: Vec<char> = chars_of(s);
    let mut i: usize = 0;
    while i < v.len()
        invariant
            i <= v.len(),
            v@ == s@,
            forall|k: int| 0 <= k < i ==> v@[k] != c,
        decreases v.len() - i,
    {
        if v[i] == c {
            assert(s@[i as int] == c);
            return true;
        }
        i = i + 1;
    }
    false
}

/// Where the part of `s` behind its last `sep` begins: one past the last
/// `sep`, or the start of `s` where there is none.
pub open spec fn last_piece_start(s: Seq<char>, sep: char) -> int
    decreases s.len(),
{
    if s.len() == 0 {
        0
    } else if s.last() == sep {
        s.len() as int
    } else {
        last_piece_start(s.drop_last(), sep)
    }
}

/// The part of `s` behind its last `sep`, or all of `s` where there is none.
pub open spec fn last_piece(s: Seq<char>, sep: char) -> Seq<char> {
    s.skip(last_piece_start(s, sep))
}

/// The last piece is a suffix that holds no separator, and a separator or
/// nothing stands before it.
pub proof fn last_piece_is_maximal(s: Seq<char>, sep: char)
    ensures
        0 <= last_piece_start(s, sep) <= s.len(),
        !last_piece(s, sep).contains(sep),
        last_piece_start(s, sep) > 0 ==> s[last_piece_start(s, sep) - 1] == sep,
        last_piece_start(s, sep) == 0 ==> last_piece(s, sep) == s,
    decreases s.len(),
{
    let k = last_piece_start(s, sep);
    if s.len() > 0 && s.last() != sep {
        last_piece_is_maximal(s.drop_last(), sep);
        let t = s.drop_last();
        assert(last_piece(s, sep) =~= last_piece(t, sep).push(s.last()));
        assert forall|i: int| 0 <= i < last_piece(s, sep).len() implies last_piece(s, sep)[i] != sep by {
            if i < last_piece(t, sep).len() {
                assert(last_piece(t, sep).contains(last_piece(t, sep)[i]));
            }
        }
    }
    if k == 0 {
        assert(last_piece(s, sep) =~= s);
    }
}

/// Where a separator stands at `cut - 1` and none follows it up to `end`, the
/// last piece of what ends at `end` starts at `cut`.
pub proof fn last_piece_starts_at(s: Seq<char>, sep: char, cut: int, end: int)
    requires
        0 < cut <= end <= s.len(),
        s[cut - 1] == sep,
        forall|i: int| cut <= i < end ==> s[i] != sep,
    ensures
        last_piece_start(s.take(end), sep) == cut,
    decreases end,
{
    let t = s.take(end);
    if end > cut {
        assert(t.last() == s[end - 1]);
        assert(t.drop_last() =~= s.take(end - 1));
        last_piece_starts_at(s, sep, cut, end - 1);
    } else {
        assert(t.last() == s[cut - 1]);
    }
}

/// A text without the separator is its own last piece.
pub proof fn whole_text_is_last_piece(s: Seq<char>, sep: char)
    requires
        !s.contains(sep),
    ensures
        last_piece(s, sep) == s,
{
    last_piece_is_maximal(s, sep);
    if last_piece_start(s, sep) > 0 {
        assert(s.contains(s[last_piece_start(s, sep) - 1]));
    }
}

/// The part of `s` behind its last `sep`, or all of `s` where there is none.
pub fn after_last<'a>(s: &'a str, sep: char) -> (r: &'a str)
    ensures
        r@ == last_piece(s@, sep),
{
    let v: Vec<char> = chars_of(s);
    let n: usize = v.len();
    let mut i: usize = n;
    assert(s@.take(n as int) =~= s@);
    while i > 0
        invariant
            i <= n,
            n == v.len(),
            v@ == s@,
            last_piece_start(s@, sep) == last_piece_start(s@.take(i as int), sep),
        decreases i,
    {
        assert(s@.take(i as int).drop_last() =~= s@.take(i - 1));
        if v[i - 1] == sep {
            let r: &'a str = s.substring_char(i, n);
            assert(r@ =~= last_piece(s@, sep));
            return r;
        }
        i = i - 1;
    }
    assert(last_piece(s@, sep) =~= s@);
    s
}

/// Whether `s` falls into pieces at each `sep` such that one of them is `p`.
pub open spec fn has_piece(s: Seq<char>, sep: char, p: Seq<char>) -> bool {
    exists|i: int, j: int| #[trigger] is_piece(s, sep, i, j) && s.subrange(i, j) == p
}

/// Whether `s[i], ..., s[j - 1]` is one of the pieces into which `sep` cuts `s`.
pub open spec fn is_piece(s: Seq<char>, sep: char, i: int, j: int) -> bool {
    &&& 0 <= i <= j <= s.len()
    &&& i == 0 || s[i - 1] == sep
    &&& j == s.len() || s[j] == sep
    &&& forall|k: int| i <= k < j ==> s[k] != sep
}

/// Whether one of the pieces into which `sep` cuts `s` is `p`.
pub fn any_piece_is(s: &str, sep: char, p: &str) -> (r: bool)
    ensures
        r == has_piece(s@, sep, p@),
{
    let v: Vec<char> = chars_of(s);
    let w: Vec<char> = chars_of(p);
    let n: usize = v.len();
    let mut start: usize = 0;
    let mut at: usize = 0;
    let mut matching: bool = true;
    assert(v@.subrange(0, 0) =~= w@.take(0));
    loop
        invariant
            start <= at <= n,
            n == v.len(),
            v@ == s@,
            w@ == p@,
            start == 0 || v@[start - 1] == sep,
            forall|k: int| start <= k < at ==> v@[k] != sep,
            matching == (at - start <= w.len() && v@.subrange(start as int, at as int)
                == w@.take(at - start)),
            forall|i: int, j: int|
                i < start && #[trigger] is_piece(s@, sep, i, j) ==> s@.subrange(i, j) != p@,
        decreases n - at,
    {
        if at == n || v[at] == sep {
            assert(is_piece(s@, sep, start as int, at as int));
            if matching && at - start == w.len() {
                assert(w@.take(at - start) =~= p@);
                return true;
            }
            assert(s@.subrange(start as int, at as int) != p@) by {
                if s@.subrange(start as int, at as int) == p@ {
                    assert(w@.take(at - start) =~= p@);
                }
            }
            assert forall|i: int, j: int| i <= at && #[trigger] is_piece(s@, sep, i, j) implies s@.subrange(
                i,
                j,
            ) != p@ by {
                if i > start {
                    assert(s@[i - 1] == sep);
                } else if i == start {
                    if j < at {
                        assert(s@[j] == sep);
                    } else if j > at {
                        assert(s@[at as int] == sep);
                    }
                }
            }
            if at == n {
                return false;
            }
            at = at + 1;
            start = at;
            matching = true;
            assert(v@.subrange(start as int, at as int) =~= w@.take(0));
        } else {
            let m: bool = matching && at - start < w.len() && v[at] == w[at - start];
            proof {
                let a = v@.subrange(start as int, at as int);
                let b = v@.subrange(start as int, at + 1);
                assert(b =~= a.push(v@[at as int]));
                if at + 1 - start <= w.len() {
                    let d = w@.take(at + 1 - start);
                    assert(d =~= w@.take(at - start).push(w@[at - start]));
                    if m {
                        assert(b =~= d);
                    }
                    if b == d {
                        assert(a =~= b.drop_last());
                        assert(w@.take(at - start) =~= d.drop_last());
                        assert(b.last() == d.last());
                    }
                }
            }
            matching = m;
            at = at + 1;
        }
    }
}

/// The decimal numeral of `n`, without leading zeros.
pub open spec fn numeral(n: nat) -> Seq<char>
    decreases n,
{
    if n < 10 {
        seq![digit_char(n)]
    } else {
        numeral(n / 10).push(digit_char(n % 10))
    }
}

/// The character that stands for the digit `d`.
pub open spec fn digit_char(d: nat) -> char {
    (48 + d) as char
}

/// Append the decimal numeral of `n` to `out`.
pub fn push_numeral(out: &mut String, n: u64)
    ensures
        final(out)@ == old(out)@ + numeral(n as nat),
    decreases n,
{
    let ghost before = out@;
    if n >= 10 {
        push_numeral(out, n / 10);
        assert(before + numeral((n / 10) as nat).push(digit_char((n % 10) as nat)) =~= (before
            + numeral((n / 10) as nat)).push(digit_char((n % 10) as nat)));
    } else {
        assert(before + seq![digit_char(n as nat)] =~= before.push(digit_char(n as nat)));
    }
    let d: u8 = (n % 10) as u8;
    out.push((48u8 + d) as char);
}

/// The decimal numeral of `n`.
pub fn decimal(n: u64) -> (s: String)
    ensures
        s@ == numeral(n as nat),
{
    let mut s: String = String::new();
    push_numeral(&mut s, n);
    assert(Seq::<char>::empty() + numeral(n as nat) =~= numeral(n as nat));
    s
}

/// The decimal numeral of `n`, with a minus sign where `n` is negative.
pub open spec fn signed_numeral(n: int) -> Seq<char> {
    if n < 0 {
        seq!['-'] + numeral((-n) as nat)
    } else {
        numeral(n as nat)
    }
}

/// The decimal numeral of `n`, with a minus sign where `n` is negative.
pub fn signed_decimal(n: i32) -> (s: String)
    ensures
        s@ == signed_numeral(n as int),
{
    let mut s: String = String::new();
    if n < 0 {
        s.push('-');
        let m: i64 = -(n as i64);
        push_numeral(&mut s, m as u64);
        assert(s@ =~= signed_numeral(n as int));
    } else {
        push_numeral(&mut s, n as u64);
        assert(s@ =~= signed_numeral(n as int));
    }
    s
}

/// `s` with blanks behind it, up to `width` characters.
pub open spec fn padded(s: Seq<char>, width: nat) -> Seq<char> {
    if s.len() >= width {
        s
    } else {
        s + Seq::new((width - s.len()) as nat, |i: int| ' ')
    }
}

/// `s` with blanks behind it, up to `width` characters.
pub fn pad(s: &str, width: usize) -> (r: String)
    ensures
        r@ == padded(s@, width as nat),
{
    let mut r: String = s.to_owned();
    let n: usize = s.unicode_len();
    let mut i: usize = n;
    while i < width
        invariant
            n == s@.len(),
            n <= i,
            i <= width || i == n,
            r@ == s@ + Seq::new((i - n) as nat, |k: int| ' '),
        decreases width - i,
    {
        r.push(' ');
        assert(r@ =~= s@ + Seq::new((i + 1 - n) as nat, |k: int| ' '));
        i = i + 1;
    }
    assert(r@ =~= padded(s@, width as nat));
    r
}

/// Whether `s` begins with `c`.
pub open spec fn begins_with(s: Seq<char>, c: char) -> bool {
    s.len() > 0 && s[0] == c
}

/// Whether `s` begins with `c`.
pub fn first_is(s: &str, c: char) -> (r: bool)
    ensures
        r == begins_with(s@, c),
{
    if s.is_empty() {
        return false;
    }
    s.get_char(0) == c
}

/// Whether `s` ends with `c`.
pub open spec fn finishes_with(s: Seq<char>, c: char) -> bool {
    s.len() > 0 && s.last() == c
}

/// Whether `s` ends with `c`.
pub fn last_is(s: &str, c: char) -> (r: bool)
    ensures
        r == finishes_with(s@, c),
{
    if s.is_empty() {
        return false;
    }
    s.get_char(s.unicode_len() - 1) == c
}

/// The path of `name` below the directory `dir`: an absolute `name` stands for
/// itself; otherwise one `/` parts the two, and nothing precedes `name` where
/// `dir` is empty.
pub open spec fn joined(dir: Seq<char>, name: Seq<char>) -> Seq<char> {
    if begins_with(name, '/') {
        name
    } else if dir.len() == 0 || finishes_with(dir, '/') {
        dir + name
    } else {
        dir + "/"@ + name
    }
}

/// The path of `name` below the directory `dir`.
pub fn join_path(dir: &str, name: &str) -> (r: String)
    ensures
        r@ == joined(dir@, name@),
{
    if first_is(name, '/') {
        return name.to_owned();
    }
    let mut r: String = dir.to_owned();
    if !dir.is_empty() && !last_is(dir, '/') {
        r.append("/");
    }
    r.append(name);
    r
}

/// Whether `c` is white space: the characters that Unicode gives the property
/// `White_Space`.
pub open spec fn is_white(c: char) -> bool {
    ||| '\u{9}' <= c && c <= '\u{d}'
    ||| c == ' '
    ||| c == '\u{85}'
    ||| c == '\u{a0}'
    ||| c == '\u{1680}'
    ||| '\u{2000}' <= c && c <= '\u{200a}'
    ||| c == '\u{2028}'
    ||| c == '\u{2029}'
    ||| c == '\u{202f}'
    ||| c == '\u{205f}'
    ||| c == '\u{3000}'
}

/// Whether `c` is white space.
pub fn white(c: char) -> (r: bool)
    ensures
        r == is_white(c),
{
    (c >= '\u{9}' && c <= '\u{d}') || c == ' ' || c == '\u{85}' || c == '\u{a0}' || c
        == '\u{1680}' || (c >= '\u{2000}' && c <= '\u{200a}') || c == '\u{2028}' || c == '\u{2029}'
        || c == '\u{202f}' || c == '\u{205f}' || c == '\u{3000}'
}

/// `s` without the white space at its end.
pub open spec fn trimmed_end(s: Seq<char>) -> Seq<char>
    decreases s.len(),
{
    if s.len() > 0 && is_white(s.last()) {
        trimmed_end(s.drop_last())
    } else {
        s
    }
}

/// `s` without the white space at its start.
pub open spec fn trimmed_start(s: Seq<char>) -> Seq<char>
    decreases s.len(),
{
    if s.len() > 0 && is_white(s[0]) {
        trimmed_start(s.drop_first())
    } else {
        s
    }
}

/// `s` without the white space at its two ends.
pub open spec fn trimmed(s: Seq<char>) -> Seq<char> {
    trimmed_end(trimmed_start(s))
}

/// The bounds of what is left of `v` between `from` and its end when the white
/// space at the end is cut off.
fn white_free_end(v: &Vec<char>, from: usize) -> (to: usize)
    requires
        from <= v.len(),
    ensures
        from <= to <= v.len(),
        v@.subrange(from as int, to as int) == trimmed_end(v@.skip(from as int)),
{
    let mut to: usize = v.len();
    assert(v@.subrange(from as int, to as int) =~= v@.skip(from as int));
    while to > from && white(v[to - 1])
        invariant
            from <= to <= v.len(),
            trimmed_end(v@.subrange(from as int, to as int)) == trimmed_end(v@.skip(from as int)),
        decreases to,
    {
        assert(v@.subrange(from as int, to as int).drop_last() =~= v@.subrange(
            from as int,
            to - 1,
        ));
        to = to - 1;
    }
    to
}

/// `s` without the white space at its end.
pub fn trim_end(s: &str) -> (r: String)
    ensures
        r@ == trimmed_end(s@),
{
    let v: Vec<char> = chars_of(s);
    let to: usize = white_free_end(&v, 0);
    assert(v@.skip(0) =~= s@);
    string_of(&v, 0, to)
}

/// The characters of `s` without the white space at its two ends.
pub fn trim(s: &str) -> (r: Vec<char>)
    ensures
        r@ == trimmed(s@),
{
    let v: Vec<char> = chars_of(s);
    let mut from: usize = 0;
    assert(v@.skip(0) =~= s@);
    while from < v.len() && white(v[from])
        invariant
            from <= v.len(),
            v@ == s@,
            trimmed_start(v@.skip(from as int)) == trimmed_start(s@),
        decreases v.len() - from,
    {
        assert(v@.skip(from as int).drop_first() =~= v@.skip(from + 1));
        from = from + 1;
    }
    let to: usize = white_free_end(&v, from);
    let mut r: Vec<char> = Vec::new();
    let mut i: usize = from;
    assert(r@ =~= v@.subrange(from as int, from as int));
    while i < to
        invariant
            from <= i <= to <= v.len(),
            r@ == v@.subrange(from as int, i as int),
        decreases to - i,
    {
        r.push(v[i]);
        assert(v@.subrange(from as int, i as int).push(v@[i as int]) =~= v@.subrange(
            from as int,
            i + 1,
        ));
        i = i + 1;
    }
    r
}

/// What `String::from_utf8_lossy` makes of bytes that are not UTF-8 throughout.
pub uninterp spec fn lossy_text(bytes: Seq<u8>) -> Seq<char>;

/// `String::from_utf8_lossy` reads bytes as UTF-8 text. What it puts in place of
/// bytes that are not UTF-8 is not stated here, only that the same bytes always
/// give the same text.
#[verifier::external_body]
pub(crate) fn from_utf8_lossy(bytes: &[u8]) -> (r: String)
    ensures
        r@ == (if vstd::utf8::valid_utf8(bytes@) {
            vstd::utf8::decode_utf8(bytes@)
        } else {
            lossy_text(bytes@)
        }),
{
    String::from_utf8_lossy(bytes).into_owned()
}

/// The text that bytes are read as.
pub open spec fn read_as_text(bytes: Seq<u8>) -> Seq<char> {
    if vstd::utf8::valid_utf8(bytes) {
        vstd::utf8::decode_utf8(bytes)
    } else {
        lossy_text(bytes)
    }
}

/// The text that bytes are read as.
pub fn text_from(bytes: &[u8]) -> (r: String)
    ensures
        r@ == read_as_text(bytes@),
{
    from_utf8_lossy(bytes)
}

/// A numeral is made of ASCII characters.
pub proof fn numeral_is_ascii(n: nat)
    ensures
        vstd::utf8::is_ascii_chars(numeral(n)),
    decreases n,
{
    if n >= 10 {
        numeral_is_ascii(n / 10);
    }
}

/// What is read of part of an ASCII text is that part.
pub proof fn part_of_ascii_reads_as_itself(t: Seq<char>, from: int, to: int)
    requires
        vstd::utf8::is_ascii_chars(t),
        0 <= from <= to <= t.len(),
    ensures
        vstd::utf8::encode_utf8(t).len() == t.len(),
        read_as_text(vstd::utf8::encode_utf8(t).subrange(from, to)) == t.subrange(from, to),
{
    let part = t.subrange(from, to);
    vstd::utf8::is_ascii_chars_encode_utf8(t);
    assert(vstd::utf8::is_ascii_chars(part));
    vstd::utf8::is_ascii_chars_encode_utf8(part);
    let bytes = vstd::utf8::encode_utf8(t).subrange(from, to);
    assert forall|i: int| 0 <= i < to - from implies bytes[i] == vstd::utf8::encode_utf8(
        part,
    )[i] by {
        assert(part[i] == t[from + i]);
    }
    assert(bytes =~= vstd::utf8::encode_utf8(part));
    vstd::utf8::encode_utf8_valid_utf8(part);
    vstd::utf8::encode_utf8_decode_utf8(part);
}

} // verus!
