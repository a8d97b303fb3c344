//! What holds of texts, names, sizes, keys, messages and log records.

use crate::app_log;
use crate::app_log::{AppLog, LogLevel};
use crate::protocol;
use crate::report;
use crate::report::{Report, ReportView};
use crate::session::Session;
use crate::session_log;
use crate::session_log::{Rotation, SessionLog};
use crate::text;
use crate::util;
use crate::util::{Env, SizeText};
use vstd::prelude::*;
use vstd::string::*;

verus! {

// ---------------------------------------------------------------------------
// Texts
// ---------------------------------------------------------------------------

/// Whether `piece` is what follows on the last `sep` of `s`, or all of `s` where
/// there is none.
pub open spec fn follows_last(s: Seq<char>, sep: char, piece: Seq<char>) -> bool {
    let cut = s.len() - piece.len();
    &&& 0 <= cut
    &&& s.skip(cut) == piece
    &&& cut > 0 ==> s[cut - 1] == sep
    &&& forall|i: int| 0 <= i < piece.len() ==> #[trigger] piece[i] != sep
}

/// The last piece of a text is what follows on the last separator.
pub proof fn last_piece_follows_the_last_separator(s: Seq<char>, sep: char)
    ensures
        follows_last(s, sep, text::last_piece(s, sep)),
{
    text::last_piece_is_maximal(s, sep);
    let piece = text::last_piece(s, sep);
    assert forall|i: int| 0 <= i < piece.len() implies #[trigger] piece[i] != sep by {
        assert(piece.contains(piece[i]));
    }
}

/// A session is known by the last component of its socket's path.
pub proof fn name_is_the_last_component(sockname: &str, sep: char, r: &str, piece: &str)
    requires
        call_ensures(util::session_shortname, (sockname,), r),
        call_ensures(text::after_last, (sockname, sep), piece),
    ensures
        follows_last(sockname@, '/', r@),
        follows_last(sockname@, sep, piece@),
{
    last_piece_follows_the_last_separator(sockname@, '/');
    last_piece_follows_the_last_separator(sockname@, sep);
}

/// Two texts are the same just when they agree in length and in every
/// character.
pub proof fn sameness_is_by_characters(a: &str, b: &str, c: char, r: bool, has: bool)
    requires
        call_ensures(text::same, (a, b), r),
        call_ensures(text::has_char, (a, c), has),
    ensures
        r <==> a@.len() == b@.len() && forall|i: int| 0 <= i < a@.len() ==> a@[i] == b@[i],
        has <==> exists|i: int| 0 <= i < a@.len() && a@[i] == c,
{
    if a@.len() == b@.len() && forall|i: int| 0 <= i < a@.len() ==> a@[i] == b@[i] {
        assert(a@ =~= b@);
    }
}

/// A path below a directory: one slash parts the two, an absolute name stands
/// for itself, and nothing precedes the name where the directory is empty.
pub proof fn joining_puts_one_slash_between(dir: &str, name: &str, r: String)
    requires
        call_ensures(text::join_path, (dir, name), r),
    ensures
        name@.len() > 0 && name@[0] == '/' ==> r@ == name@,
        !(name@.len() > 0 && name@[0] == '/') ==> {
            &&& dir@.len() == 0 ==> r@ == name@
            &&& dir@.len() > 0 && dir@.last() == '/' ==> r@ == dir@ + name@
            &&& dir@.len() > 0 && dir@.last() != '/' ==> r@ == dir@ + seq!['/'] + name@
        },
{
    reveal_strlit("/");
    assert("/"@ =~= seq!['/']);
    if dir@.len() == 0 {
        assert(dir@ + name@ =~= name@);
    }
}

/// A name in a column of some width is followed by blanks up to it, and is never
/// cut.
pub proof fn padding_never_cuts(s: &str, width: usize, r: String)
    requires
        call_ensures(text::pad, (s, width), r),
    ensures
        r@.len() == (if s@.len() < width {
            width as nat
        } else {
            s@.len()
        }),
        forall|i: int| 0 <= i < s@.len() ==> #[trigger] r@[i] == s@[i],
        forall|i: int| s@.len() <= i < r@.len() ==> #[trigger] r@[i] == ' ',
{
}

/// White space is what Unicode calls so: the blank and the control characters
/// from tab to carriage return, and these others.
pub proof fn white_space_is_that_of_unicode(c: char, r: bool)
    requires
        call_ensures(text::white, (c,), r),
    ensures
        r <==> {
            let n = c as int;
            ||| 9 <= n <= 13
            ||| n == 32
            ||| n == 0x85
            ||| n == 0xa0
            ||| n == 0x1680
            ||| 0x2000 <= n <= 0x200a
            ||| n == 0x2028
            ||| n == 0x2029
            ||| n == 0x202f
            ||| n == 0x205f
            ||| n == 0x3000
        },
        r == text::is_white(c),
{
}

/// Trimming takes away all white space at the ends and nothing else: what is
/// left begins and ends with something else, and only white space was cut off.
pub proof fn trimming_cuts_white_space_alone(s: &str, r: Vec<char>, e: String)
    requires
        call_ensures(text::trim, (s,), r),
        call_ensures(text::trim_end, (s,), e),
    ensures
        exists|from: int, to: int|
            {
                &&& 0 <= from <= to <= s@.len()
                &&& r@ == #[trigger] s@.subrange(from, to)
                &&& forall|i: int| 0 <= i < from ==> text::is_white(#[trigger] s@[i])
                &&& forall|i: int| to <= i < s@.len() ==> text::is_white(#[trigger] s@[i])
            },
        r@.len() > 0 ==> !text::is_white(r@[0]) && !text::is_white(r@.last()),
        e@ == s@.take(e@.len() as int),
        e@.len() <= s@.len(),
        forall|i: int| e@.len() <= i < s@.len() ==> text::is_white(#[trigger] s@[i]),
        e@.len() > 0 ==> !text::is_white(e@.last()),
{
    trimmed_start_is_a_suffix(s@);
    let t = text::trimmed_start(s@);
    trimmed_end_is_a_prefix(t);
    trimmed_end_is_a_prefix(s@);
    let from = s@.len() - t.len();
    let to = from + r@.len();
    assert(r@ =~= s@.subrange(from, to));
    assert forall|i: int| to <= i < s@.len() implies text::is_white(#[trigger] s@[i]) by {
        assert(t[i - from] == s@[i]);
    }
}

proof fn trimmed_end_is_a_prefix(s: Seq<char>)
    ensures
        text::trimmed_end(s).len() <= s.len(),
        text::trimmed_end(s) == s.take(text::trimmed_end(s).len() as int),
        forall|i: int|
            text::trimmed_end(s).len() <= i < s.len() ==> text::is_white(#[trigger] s[i]),
        text::trimmed_end(s).len() > 0 ==> !text::is_white(text::trimmed_end(s).last()),
    decreases s.len(),
{
    if s.len() > 0 && text::is_white(s.last()) {
        let init = s.drop_last();
        trimmed_end_is_a_prefix(init);
        assert(init.take(text::trimmed_end(init).len() as int) =~= s.take(
            text::trimmed_end(init).len() as int,
        ));
        assert forall|i: int| text::trimmed_end(s).len() <= i < s.len() implies text::is_white(
            #[trigger] s[i],
        ) by {
            if i < init.len() {
                assert(init[i] == s[i]);
            }
        }
    } else {
        assert(s.take(s.len() as int) =~= s);
    }
}

proof fn trimmed_start_is_a_suffix(s: Seq<char>)
    ensures
        text::trimmed_start(s).len() <= s.len(),
        text::trimmed_start(s) == s.skip(s.len() - text::trimmed_start(s).len()),
        forall|i: int|
            0 <= i < s.len() - text::trimmed_start(s).len() ==> text::is_white(#[trigger] s[i]),
        text::trimmed_start(s).len() > 0 ==> !text::is_white(text::trimmed_start(s)[0]),
    decreases s.len(),
{
    if s.len() > 0 && text::is_white(s[0]) {
        let rest = s.drop_first();
        trimmed_start_is_a_suffix(rest);
        let n = text::trimmed_start(rest).len();
        assert(rest.skip(rest.len() - n) =~= s.skip(s.len() - n));
        assert forall|i: int|
            0 <= i < s.len() - text::trimmed_start(s).len() implies text::is_white(
            #[trigger] s[i],
        ) by {
            if i > 0 {
                assert(rest[i - 1] == s[i]);
            }
        }
    } else {
        assert(s.skip(0) =~= s);
    }
}

/// A numeral is made of digits, begins with a zero only where it stands for
/// zero, and stands for the number that it is made of.
pub proof fn numeral_stands_for_its_number(n: nat)
    ensures
        text::numeral(n).len() > 0,
        forall|i: int|
            0 <= i < text::numeral(n).len() ==> 48 <= (#[trigger] text::numeral(n)[i]) as int <= 57,
        text::numeral(n)[0] == '0' <==> n == 0,
        util::digits_value(text::numeral(n)) == n,
    decreases n,
{
    if n >= 10 {
        let tens = text::numeral(n / 10);
        numeral_stands_for_its_number(n / 10);
        assert(text::numeral(n).drop_last() =~= tens);
        assert(text::numeral(n)[0] == tens[0]);
    } else {
        assert(text::numeral(n).drop_last() =~= Seq::<char>::empty());
        assert(util::digits_value(Seq::<char>::empty()) == 0);
    }
}

/// The value of a run of digits: the last digit counts once, and what stands
/// before it tenfold.
pub proof fn digits_count_tenfold(s: Seq<char>, d: nat)
    requires
        d < 10,
    ensures
        util::digits_value(Seq::<char>::empty()) == 0,
        util::digits_value(s.push((48 + d) as char)) == 10 * util::digits_value(s) + d,
{
    assert(s.push((48 + d) as char).drop_last() =~= s);
}

/// Numbers are written in decimal, negative ones with a minus sign.
pub proof fn numbers_are_written_in_decimal(n: u64, s: String, m: i32, t: String)
    requires
        call_ensures(text::decimal, (n,), s),
        call_ensures(text::signed_decimal, (m,), t),
    ensures
        s@ == text::numeral(n as nat),
        m >= 0 ==> t@ == text::numeral(m as nat),
        m < 0 ==> t@ == seq!['-'] + text::numeral((-(m as int)) as nat),
{
}

/// A piece of a text is one just when separators or the text's ends stand around
/// it and none within.
pub proof fn pieces_lie_between_separators(s: &str, sep: char, p: &str, r: bool)
    requires
        call_ensures(text::any_piece_is, (s, sep, p), r),
    ensures
        r <==> exists|i: int, j: int|
            {
                &&& 0 <= i <= j <= s@.len()
                &&& i == 0 || s@[i - 1] == sep
                &&& j == s@.len() || s@[j] == sep
                &&& forall|k: int| i <= k < j ==> s@[k] != sep
                &&& #[trigger] s@.subrange(i, j) == p@
            },
{
    if r {
        let (i, j) = choose|i: int, j: int| #[trigger]
            text::is_piece(s@, sep, i, j) && s@.subrange(i, j) == p@;
        assert(s@.subrange(i, j) == p@);
    }
    if exists|i: int, j: int|
        {
            &&& 0 <= i <= j <= s@.len()
            &&& i == 0 || s@[i - 1] == sep
            &&& j == s@.len() || s@[j] == sep
            &&& forall|k: int| i <= k < j ==> s@[k] != sep
            &&& #[trigger] s@.subrange(i, j) == p@
        } {
        let (i, j) = choose|i: int, j: int|
            {
                &&& 0 <= i <= j <= s@.len()
                &&& i == 0 || s@[i - 1] == sep
                &&& j == s@.len() || s@[j] == sep
                &&& forall|k: int| i <= k < j ==> s@[k] != sep
                &&& #[trigger] s@.subrange(i, j) == p@
            };
        assert(text::is_piece(s@, sep, i, j));
    }
}

// ---------------------------------------------------------------------------
// Names and paths
// ---------------------------------------------------------------------------

/// The name of the session variable is that of the program, character by
/// character: small letters become capital ones, capital letters and digits
/// stay, anything else becomes an underscore; and `_SESSION` follows.
pub proof fn variable_is_named_after_the_program(progname: &str, name: String)
    requires
        call_ensures(util::session_envvar_name, (progname,), name),
    ensures
        ({
            let base = text::last_piece(progname@, '/');
            &&& name@.len() == base.len() + 8
            &&& name@.skip(base.len() as int) == "_SESSION"@
            &&& forall|i: int|
                0 <= i < base.len() ==> {
                    let c = base[i] as int;
                    (#[trigger] name@[i]) as int == (if 97 <= c <= 122 {
                        c - 32
                    } else if 65 <= c <= 90 || 48 <= c <= 57 {
                        c
                    } else {
                        95
                    })
                }
        }),
{
    reveal_strlit("_SESSION");
    let base = text::last_piece(progname@, '/');
    assert(name@.skip(base.len() as int) =~= "_SESSION"@);
}

/// Sessions are kept below the cache of the user's home. Without a home, or with
/// the root for one, they are kept in a directory of the process below `/tmp`.
pub proof fn sessions_are_kept_in_the_cache(progname: &str, env: &Env, r: String)
    requires
        call_ensures(util::get_session_dir, (progname, env), r),
    ensures
        ({
            let base = text::last_piece(progname@, '/');
            let has_home = env.home matches Some(h) && h@.len() > 0 && h@ != "/"@;
            &&& !has_home ==> r@ == "/tmp/."@ + base + "-"@ + text::numeral(env.pid as nat)
            &&& has_home ==> (env.home matches Some(h) && (if h@.last() == '/' {
                r@ == h@ + ".cache/"@ + base
            } else {
                r@ == h@ + "/.cache/"@ + base
            }))
        }),
{
    let base = text::last_piece(progname@, '/');
    last_piece_follows_the_last_separator(progname@, '/');
    reveal_strlit("/");
    reveal_strlit(".cache");
    reveal_strlit(".cache/");
    reveal_strlit("/.cache/");
    if base.len() > 0 {
        assert(base[0] != '/');
    }
    if let Some(h) = env.home {
        if h@.len() > 0 && h@ != "/"@ {
            if h@.last() == '/' {
                assert(r@ =~= h@ + ".cache/"@ + base);
            } else {
                assert(r@ =~= h@ + "/.cache/"@ + base);
            }
        }
    }
}

/// A name with a slash is a path and stands for itself; any other is that of a
/// socket in the session directory.
pub proof fn plain_names_lie_in_the_session_directory(
    progname: &str,
    name: &str,
    env: &Env,
    dir: String,
    r: String,
)
    requires
        call_ensures(util::get_session_dir, (progname, env), dir),
        call_ensures(util::expand_sockname, (progname, name, env), r),
    ensures
        name@.contains('/') ==> r@ == name@,
        !name@.contains('/') && dir@.last() != '/' ==> r@ == dir@ + seq!['/'] + name@,
        !name@.contains('/') && dir@.last() == '/' ==> r@ == dir@ + name@,
        dir@.len() > 0,
{
    reveal_strlit("/");
    reveal_strlit("/tmp/.");
    reveal_strlit(".cache");
    assert("/"@ =~= seq!['/']);
    if name@.len() > 0 {
        assert(name@.contains(name@[0]));
    }
    let base = text::last_piece(progname@, '/');
    last_piece_follows_the_last_separator(progname@, '/');
    if base.len() > 0 {
        assert(base[0] != '/');
    }
}

/// The bytes of a text make a C string unless one of them is null.
pub proof fn null_bytes_make_no_c_string(s: &str, r: Option<Vec<u8>>)
    requires
        call_ensures(util::cstr, (s,), r),
    ensures
        r is None <==> exists|i: int|
            0 <= i < util::utf8(s@).len() && #[trigger] util::utf8(s@)[i] == 0,
        r matches Some(b) ==> b@ == util::utf8(s@),
{
}

// ---------------------------------------------------------------------------
// Sizes and keys
// ---------------------------------------------------------------------------

/// A size is a number of bytes, or of kibibytes or mebibytes where the letter k
/// or m follows it in either case; a plus sign may precede it. Any digits make a
/// number as long as a `usize` can hold it.
pub proof fn sizes_are_read_as_written(d: Seq<char>)
    requires
        d.len() > 0,
        forall|i: int| 0 <= i < d.len() ==> 48 <= (#[trigger] d[i]) as int <= 57,
    ensures
        ({
            let v = util::digits_value(d);
            let plus = seq!['+'] + d;
            let fits = v <= usize::MAX;
            &&& !fits ==> util::size_value(d) is None && util::size_value(plus) is None
            &&& fits ==> util::size_value(d) == Some(v) && util::size_value(plus) == Some(v)
            &&& fits ==> util::size_value(d.push('k')) == Some(1024 * v)
            &&& fits ==> util::size_value(d.push('K')) == Some(1024 * v)
            &&& fits ==> util::size_value(d.push('m')) == Some(1048576 * v)
            &&& fits ==> util::size_value(d.push('M')) == Some(1048576 * v)
            &&& fits ==> util::size_value(plus.push('k')) == Some(1024 * v)
            &&& fits ==> util::size_value(plus.push('K')) == Some(1024 * v)
            &&& fits ==> util::size_value(plus.push('m')) == Some(1048576 * v)
            &&& fits ==> util::size_value(plus.push('M')) == Some(1048576 * v)
        }),
{
    let plus = seq!['+'] + d;
    digits_are_a_number(d);
    plain_text_is_trimmed(d);
    assert(util::size_factor(d) == 1);
    assert(plus.last() == d.last());
    plain_text_is_trimmed(plus);
    assert(util::size_factor(plus) == 1);
    size_with_a_letter(d, d, 'k');
    size_with_a_letter(d, d, 'K');
    size_with_a_letter(d, d, 'm');
    size_with_a_letter(d, d, 'M');
    size_with_a_letter(d, plus, 'k');
    size_with_a_letter(d, plus, 'K');
    size_with_a_letter(d, plus, 'm');
    size_with_a_letter(d, plus, 'M');
}

proof fn digits_are_a_number(d: Seq<char>)
    requires
        d.len() > 0,
        forall|i: int| 0 <= i < d.len() ==> 48 <= (#[trigger] d[i]) as int <= 57,
    ensures
        ({
            let value = if util::digits_value(d) <= usize::MAX {
                Some(util::digits_value(d))
            } else {
                None
            };
            &&& util::is_digit(d[0])
            &&& util::is_digit(d.last())
            &&& util::number_value(d) == value
            &&& util::number_value(seq!['+'] + d) == value
        }),
{
    assert forall|i: int| 0 <= i < d.len() implies util::is_digit(#[trigger] d[i]) by {}
    assert(util::is_digit(d[0]));
    assert(util::is_digit(d.last()));
    assert(util::digits_of(d) == d);
    let plus = seq!['+'] + d;
    assert(plus.drop_first() =~= d);
    assert(util::digits_of(plus) == d);
}

proof fn size_with_a_letter(d: Seq<char>, num: Seq<char>, c: char)
    requires
        d.len() > 0,
        forall|i: int| 0 <= i < d.len() ==> 48 <= (#[trigger] d[i]) as int <= 57,
        num == d || num == seq!['+'] + d,
        util::digits_value(d) <= usize::MAX ==> util::number_value(num) == Some(
            util::digits_value(d),
        ),
        c == 'k' || c == 'K' || c == 'm' || c == 'M',
    ensures
        util::digits_value(d) <= usize::MAX ==> util::size_value(num.push(c)) == Some(
            if c == 'k' || c == 'K' {
                1024 * util::digits_value(d)
            } else {
                1048576 * util::digits_value(d)
            },
        ),
{
    let t = num.push(c);
    assert(util::is_digit(d[0]));
    assert(t[0] == num[0]);
    assert(t.last() == c);
    plain_text_is_trimmed(t);
    assert(t.drop_last() =~= num);
    assert(util::size_factor(t) == (if c == 'k' || c == 'K' {
        1024nat
    } else {
        1048576
    }));
    if util::digits_value(d) <= usize::MAX {
        assert(util::size_value(t) == Some(util::digits_value(d) * util::size_factor(t)));
    }
}

proof fn plain_text_is_trimmed(s: Seq<char>)
    requires
        s.len() > 0,
        !text::is_white(s[0]),
        !text::is_white(s.last()),
    ensures
        text::trimmed(s) == s,
{
}

/// White space around a size does not count, and what is left is a size only if
/// it is made of at least one digit, but for a sign in front and a letter behind.
pub proof fn only_numbers_are_sizes(s: Seq<char>)
    ensures
        util::size_value(s) == util::size_value(text::trimmed(s)),
        util::size_value(s) is Some ==> {
            let t = text::trimmed(s);
            &&& t.len() > 0
            &&& exists|i: int| 0 <= i < t.len() && 48 <= (#[trigger] t[i]) as int <= 57
            &&& forall|i: int|
                0 < i < t.len() - 1 ==> 48 <= (#[trigger] t[i]) as int <= 57
            &&& t[0] == '+' || 48 <= t[0] as int <= 57
            &&& {
                ||| 48 <= t.last() as int <= 57
                ||| t.last() == 'k'
                ||| t.last() == 'K'
                ||| t.last() == 'm'
                ||| t.last() == 'M'
            }
        },
{
    let t = text::trimmed(s);
    trimmed_start_is_a_suffix(s);
    let u = text::trimmed_start(s);
    trimmed_end_is_a_prefix(u);
    if t.len() > 0 {
        assert(t[0] == u[0]);
        plain_text_is_trimmed(t);
    } else {
        assert(text::trimmed_start(t) == t);
    }
    if util::size_value(s) is Some {
        let num = if util::size_factor(t) == 1 {
            t
        } else {
            t.drop_last()
        };
        let d = util::digits_of(num);
        let off = num.len() - d.len();
        assert(util::is_digit(d[0]));
        assert(t[off] == d[0]);
        assert forall|i: int| off <= i < num.len() implies 48 <= (#[trigger] t[i]) as int <= 57 by {
            assert(util::is_digit(d[i - off]));
        }
    }
}

/// A size that is too large is told from one that is none, and every other is
/// given as it is.
pub proof fn sizes_are_told_apart(s: &str, r: SizeText, p: Option<usize>)
    requires
        call_ensures(util::scan_size, (s,), r),
        call_ensures(util::parse_size, (s,), p),
    ensures
        r is Invalid <==> util::size_value(s@) is None,
        r is TooLarge <==> (util::size_value(s@) matches Some(v) && v > usize::MAX),
        r matches SizeText::Bytes(n) ==> util::size_value(s@) == Some(n as nat),
        p is None <==> util::size_value(s@) is None,
        p matches Some(n) ==> util::size_value(s@) == Some(n as nat),
{
}

/// A caret and a character stand for the control character of the same five low
/// bits, a caret and a question mark for Delete; any other text stands for its
/// first byte, and none for zero.
pub proof fn carets_stand_for_control_keys(s: &str, r: i32)
    requires
        call_ensures(util::parse_escape_char, (s,), r),
    ensures
        ({
            let b = util::utf8(s@);
            &&& b.len() == 0 ==> r == 0
            &&& b.len() > 0 && (b[0] != 94 || b.len() == 1) ==> r == b[0]
            &&& b.len() > 1 && b[0] == 94 && b[1] == 63 ==> r == 127
            &&& b.len() > 1 && b[0] == 94 && b[1] != 63 ==> r == b[1] as int % 32
        }),
{
    let b = util::utf8(s@);
    if b.len() > 1 {
        let x = b[1];
        assert(x & 0x1f == x % 32) by (bit_vector);
    }
}

// ---------------------------------------------------------------------------
// Messages
// ---------------------------------------------------------------------------

/// A message is recorded as it is, at its level, and shown where it should be: in
/// a line that names the program, on standard output or on standard error, or in
/// brackets in the midst of session output.
pub proof fn messages_are_shown_where_they_should(
    progname: &str,
    level: LogLevel,
    message: String,
    silent: Report,
    printed: Report,
    warned: Report,
    in_session: Report,
)
    requires
        call_ensures(Report::silent, (level, message), silent),
        call_ensures(Report::printed, (progname, level, message), printed),
        call_ensures(Report::warned, (progname, level, message), warned),
        call_ensures(Report::in_session, (progname, level, message), in_session),
    ensures
        ({
            let line = progname@ + ": "@ + message@ + "\n"@;
            &&& silent@ == (ReportView { level, message: message@, out: None, err: None })
            &&& printed@ == (ReportView { level, message: message@, out: Some(line), err: None })
            &&& warned@ == (ReportView { level, message: message@, out: None, err: Some(line) })
            &&& in_session@ == (ReportView {
                level,
                message: message@,
                out: Some("\r\n["@ + progname@ + ": "@ + message@ + "]\r\n\n"@),
                err: None,
            })
        }),
{
}

/// Quiet mode hides warnings and notices but not statements; all of them are
/// recorded. Warnings are shown on standard error, the others on standard
/// output.
pub proof fn quiet_mode_hides_notices(sess: &Session, level: LogLevel, msg: Seq<char>)
    ensures
        ({
            let line = sess.progname@ + ": "@ + msg + "\n"@;
            let shown = if sess.quiet {
                None
            } else {
                Some(line)
            };
            &&& sess.warning(msg) == (ReportView {
                level: LogLevel::Warn,
                message: msg,
                out: None,
                err: shown,
            })
            &&& sess.notice(msg) == (ReportView {
                level: LogLevel::Info,
                message: msg,
                out: shown,
                err: None,
            })
            &&& sess.statement(level, msg) == (ReportView {
                level,
                message: msg,
                out: Some(line),
                err: None,
            })
        }),
{
}

/// A message about a session names it in quotes, and a detail follows on a
/// colon.
pub proof fn messages_name_the_session(
    sockname: &str,
    what: &str,
    about: String,
    detail: String,
    line: String,
    banner: String,
)
    requires
        call_ensures(report::about_session, (sockname, what), about),
        call_ensures(report::detail_of, (sockname, what), detail),
        call_ensures(report::line_of, (sockname, what), line),
        call_ensures(report::banner_of, (sockname, what), banner),
    ensures
        about@ == "session '"@ + text::last_piece(sockname@, '/') + "' "@ + what@,
        detail@ == sockname@ + ": "@ + what@,
        line@ == sockname@ + ": "@ + what@ + "\n"@,
        banner@ == "\r\n["@ + sockname@ + ": "@ + what@ + "]\r\n\n"@,
{
}

// ---------------------------------------------------------------------------
// The application log
// ---------------------------------------------------------------------------

/// A record is one line: the time, the severity, and the message with its line
/// ends written out.
pub proof fn record_is_one_line(log: &AppLog, now: u64, level: LogLevel, message: &str, line: String)
    requires
        call_ensures(AppLog::record, (log, now, level, message), line),
    ensures
        exists|escaped: Seq<char>|
            {
                &&& line@ == text::numeral(now as nat) + " "@ + (match level {
                    LogLevel::Info => "INFO"@,
                    LogLevel::Warn => "WARN"@,
                    LogLevel::Error => "ERROR"@,
                }) + " "@ + escaped + "\n"@
                &&& !escaped.contains('\n')
                &&& !escaped.contains('\r')
                &&& #[trigger] unescapes_to(escaped, message@)
            },
{
    let escaped = app_log::escaped(message@);
    app_log::escaped_message_is_one_line(message@);
    escaping_writes_line_ends_out(message@);
    assert(unescapes_to(escaped, message@));
}

/// Whether `escaped` is `s` with each carriage return and each newline written
/// as a backslash and a letter, and everything else as it is.
pub open spec fn unescapes_to(escaped: Seq<char>, s: Seq<char>) -> bool
    decreases s.len(),
{
    if s.len() == 0 {
        escaped.len() == 0
    } else if s.last() == '\n' || s.last() == '\r' {
        let n = escaped.len();
        &&& n >= 2
        &&& escaped[n - 2] == '\\'
        &&& escaped[n - 1] == (if s.last() == '\n' {
            'n'
        } else {
            'r'
        })
        &&& unescapes_to(escaped.take(n - 2), s.drop_last())
    } else {
        &&& escaped.len() >= 1
        &&& escaped.last() == s.last()
        &&& unescapes_to(escaped.drop_last(), s.drop_last())
    }
}

proof fn escaping_writes_line_ends_out(s: Seq<char>)
    ensures
        unescapes_to(app_log::escaped(s), s),
    decreases s.len(),
{
    if s.len() > 0 {
        reveal_strlit("\\r");
        reveal_strlit("\\n");
        let init = app_log::escaped(s.drop_last());
        let e = app_log::escaped(s);
        escaping_writes_line_ends_out(s.drop_last());
        if s.last() == '\n' || s.last() == '\r' {
            assert(e.take(e.len() - 2) =~= init);
        } else {
            assert(e.drop_last() =~= init);
        }
    }
}

/// The application log lies in the session directory, and its context keeps the
/// program's name.
pub proof fn application_log_lies_in_the_session_directory(
    progname: &str,
    env: &Env,
    dir: String,
    log: AppLog,
    name: &str,
    path: &str,
)
    requires
        call_ensures(util::get_session_dir, (progname, env), dir),
        call_ensures(AppLog::new, (progname, env), log),
        call_ensures(AppLog::progname, (&log,), name),
        call_ensures(AppLog::path, (&log,), path),
    ensures
        name@ == progname@,
        dir@.last() != '/' ==> path@ == dir@ + "/.ztch-app.log"@,
        dir@.last() == '/' ==> path@ == dir@ + ".ztch-app.log"@,
{
    reveal_strlit("/");
    reveal_strlit("/tmp/.");
    reveal_strlit(".cache");
    reveal_strlit(".ztch-app.log");
    reveal_strlit("/.ztch-app.log");
    let base = text::last_piece(progname@, '/');
    last_piece_follows_the_last_separator(progname@, '/');
    if base.len() > 0 {
        assert(base[0] != '/');
    }
    assert(dir@.len() > 0);
    if dir@.last() == '/' {
        assert(path@ =~= dir@ + ".ztch-app.log"@);
    } else {
        assert(path@ =~= dir@ + "/.ztch-app.log"@);
    }
}

/// The clock's reading is taken as it is, and as the epoch where it lies before
/// that. An age is the time that has passed, and none where its start lies
/// ahead.
pub proof fn ages_are_never_negative(
    elapsed: Option<u64>,
    now: u64,
    start: u64,
    later: u64,
    age: String,
)
    requires
        call_ensures(app_log::timestamp_of, (elapsed,), now),
        call_ensures(app_log::fmt_age_at, (start, later), age),
    ensures
        elapsed matches Some(s) ==> now == s,
        elapsed is None ==> now == 0,
        later >= start ==> age@ == protocol::age_text((later - start) as nat),
        later < start ==> age@ == protocol::age_text(0),
{
}

/// An age is written by its days, hours, minutes and seconds, from the first of
/// these that counts on.
pub proof fn age_is_written_from_the_first_that_counts(d: nat, h: nat, m: nat, s: nat)
    requires
        h < 24,
        m < 60,
        s < 60,
    ensures
        protocol::age_text(d * 86400 + h * 3600 + m * 60 + s) == (if d > 0 {
            text::numeral(d) + "d "@ + text::numeral(h) + "h "@ + text::numeral(m) + "m "@
                + text::numeral(s) + "s"@
        } else if h > 0 {
            text::numeral(h) + "h "@ + text::numeral(m) + "m "@ + text::numeral(s) + "s"@
        } else if m > 0 {
            text::numeral(m) + "m "@ + text::numeral(s) + "s"@
        } else {
            text::numeral(s) + "s"@
        }),
{
    let t = d * 86400 + h * 3600 + m * 60 + s;
    assert(t / 86400 == d);
    assert(t % 86400 == h * 3600 + m * 60 + s);
    assert((t % 86400) / 3600 == h);
    assert(t % 3600 == m * 60 + s);
    assert((t % 3600) / 60 == m);
    assert(t % 60 == s);
}

/// What shows an age shows the text of it.
pub proof fn age_is_shown(secs: u64, r: String)
    requires
        call_ensures(protocol::format_age, (secs,), r),
    ensures
        r@ == protocol::age_text(secs as nat),
{
}

// ---------------------------------------------------------------------------
// Session logs
// ---------------------------------------------------------------------------

/// A log within its limit is left alone; one beyond it is cut back to its last
/// bytes, as many as the limit says, and made empty where the limit is nothing.
pub proof fn log_is_cut_back_to_its_limit(
    size: u64,
    max_size: usize,
    how: Rotation,
    opened: (SessionLog, Rotation),
)
    requires
        call_ensures(session_log::rotate, (size, max_size), how),
        call_ensures(SessionLog::open, (size, max_size), opened),
    ensures
        opened.0.max_size == max_size,
        opened.1 == how,
        how is Keep <==> size <= max_size,
        how is Clear <==> size > 0 && max_size == 0,
        how matches Rotation::KeepTail { offset, len } ==> {
            &&& len == max_size
            &&& offset + len == size
        },
{
}

/// What was read of a log's end takes the place of the log, nothing takes the
/// place of one that is made empty, and a log whose end could not be read is
/// left alone.
pub proof fn cut_back_log_holds_what_was_read(how: Rotation, read: Vec<u8>, r: Option<Vec<u8>>)
    requires
        call_ensures(Rotation::new_contents, (how, read), r),
    ensures
        how is Keep ==> r is None,
        how is Clear ==> (r matches Some(b) && b@.len() == 0),
        how is KeepTail ==> {
            &&& r is Some <==> read@.len() > 0
            &&& r matches Some(b) ==> b@ == read@
        },
{
}

/// A session's log lies beside its socket, and its end is marked in a line of
/// its own.
pub proof fn log_lies_beside_the_socket(
    log: SessionLog,
    progname: &str,
    sockname: &str,
    path: String,
    marker: String,
)
    requires
        call_ensures(session_log::log_path_of, (sockname,), path),
        call_ensures(SessionLog::close, (log, progname, sockname), marker),
    ensures
        path@ == sockname@ + ".log"@,
        marker@ == "\r\n["@ + progname@ + ": session '"@ + text::last_piece(sockname@, '/')
            + "' ended]\r\n"@,
{
}

/// Limits and modes: a session log is cut back to one mebibyte unless told
/// otherwise, the application log to a quarter of that, and both are for their
/// owner alone.
pub proof fn logs_are_limited_and_private()
    ensures
        protocol::LOG_MAX_SIZE == 1024 * 1024,
        4 * app_log::APP_LOG_MAX_SIZE == protocol::LOG_MAX_SIZE,
        session_log::LOG_MODE & 0o777 == 0o600,
{
    assert(0o600u32 & 0o777 == 0o600) by (bit_vector);
}

/// The parts of a text: its characters in order, any stretch of them, its first
/// and its last.
pub proof fn texts_are_their_characters(
    s: &str,
    v: Vec<char>,
    from: usize,
    to: usize,
    part: String,
    c: char,
    first: bool,
    last: bool,
    out: &mut String,
    n: u64,
)
    requires
        call_ensures(text::chars_of, (s,), v),
        from <= to <= v@.len(),
        call_ensures(text::string_of, (&v, from, to), part),
        call_ensures(text::first_is, (s, c), first),
        call_ensures(text::last_is, (s, c), last),
        call_ensures(text::push_numeral, (out, n), ()),
    ensures
        v@.len() == s@.len(),
        forall|i: int| 0 <= i < s@.len() ==> #[trigger] v@[i] == s@[i],
        part@.len() == to - from,
        forall|i: int| 0 <= i < to - from ==> #[trigger] part@[i] == s@[from + i],
        first <==> s@.len() > 0 && s@[0] == c,
        last <==> s@.len() > 0 && s@[s@.len() - 1] == c,
        final(out)@ == old(out)@ + text::numeral(n as nat),
{
}

/// Bytes that are UTF-8 are read as the text that they encode.
pub proof fn encoded_text_is_read_back(bytes: &[u8], r: String, t: Seq<char>)
    requires
        call_ensures(text::text_from, (bytes,), r),
    ensures
        bytes@ == util::utf8(t) ==> r@ == t,
{
    if bytes@ == util::utf8(t) {
        vstd::utf8::encode_utf8_valid_utf8(t);
        vstd::utf8::encode_utf8_decode_utf8(t);
    }
}

/// What contracts say of reports and endings, they say of all that these hold.
pub proof fn views_leave_nothing_out(
    r: Report,
    l: crate::session::Leave,
    some: Seq<Report>,
    texts: Seq<String>,
    i: int,
)
    ensures
        r@.level == r.level,
        r@.message == r.message@,
        r@.out is Some <==> r.out is Some,
        r@.err is Some <==> r.err is Some,
        r.out matches Some(o) ==> r@.out == Some(o@),
        r.err matches Some(e) ==> r@.err == Some(e@),
        l@.code == l.code,
        l@.report is Some <==> l.report is Some,
        l.report matches Some(q) ==> l@.report == Some(q@),
        report::reports_of(some).len() == some.len(),
        report::texts(texts).len() == texts.len(),
        0 <= i < some.len() ==> report::reports_of(some)[i] == some[i]@,
        0 <= i < texts.len() ==> report::texts(texts)[i] == texts[i]@,
        report::text_of(r.out) is Some <==> r.out is Some,
        report::report_of(l.report) is Some <==> l.report is Some,
{
}

/// The words for severities, and the escaped form of a message.
pub proof fn severities_have_their_words(
    level: LogLevel,
    word: &'static str,
    message: &str,
    escaped: String,
    start: u64,
    age: String,
)
    requires
        call_ensures(LogLevel::as_str, (level,), word),
        call_ensures(app_log::escape_line, (message,), escaped),
        call_ensures(app_log::fmt_age, (start,), age),
    ensures
        level is Info ==> word@ == "INFO"@,
        level is Warn ==> word@ == "WARN"@,
        level is Error ==> word@ == "ERROR"@,
        unescapes_to(escaped@, message@),
        exists|secs: nat| age@ == #[trigger] protocol::age_text(secs),
{
    escaping_writes_line_ends_out(message@);
    let now = choose|now: u64| age@ == #[trigger] app_log::elapsed_text(start as nat, now as nat);
    let secs = if now >= start {
        (now - start) as nat
    } else {
        0
    };
    assert(age@ == protocol::age_text(secs));
}

/// Sizes are parsed unless they stand for more bytes than can be counted, and any
/// stretch of a text can be taken out.
pub proof fn texts_are_accepted(s: &str, v: &Vec<char>, from: usize, to: usize, n: u64)
    requires
        from <= to <= v@.len(),
        util::size_value(s@) matches Some(b) ==> b <= usize::MAX,
    ensures
        call_requires(util::parse_size, (s,)),
        call_requires(util::scan_size, (s,)),
        call_requires(util::parse_escape_char, (s,)),
        call_requires(util::cstr, (s,)),
        call_requires(text::string_of, (v, from, to)),
        call_requires(protocol::format_age, (n,)),
        call_requires(session_log::rotate, (n, from)),
{
}

} // verus!
