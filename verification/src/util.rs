//! Names, paths, sizes and keys as users write them, and the search for the
//! last lines of a log.

use crate::protocol::BUFSIZE;
use crate::term::Termios;
use crate::text;
use crate::text::{after_last, decimal, has_char, join_path, trim};
use vstd::prelude::*;
use vstd::slice::*;
use vstd::string::*;

verus! {

/// The bytes of a text in UTF-8.
pub open spec fn utf8(s: Seq<char>) -> Seq<u8> {
    vstd::utf8::encode_utf8(s)
}

/// What the process environment tells.
pub struct Env {
    /// The value of `HOME`, where it is set and is text.
    pub home: Option<String>,
    /// The process id.
    pub pid: u32,
}

/// Convert a `&str` to the bytes of a C string, without its terminator.
///
/// Returns `None` if the string contains null bytes.
pub fn cstr(s: &str) -> (r: Option<Vec<u8>>)
    ensures
        r is None <==> utf8(s@).contains(0u8),
        r matches Some(b) ==> b@ == utf8(s@),
{
    let bytes: &[u8] = s.as_bytes();
    let mut out: Vec<u8> = Vec::new();
    let mut i: usize = 0;
    while i < bytes.len()
        invariant
            i <= bytes.len(),
            bytes@ == utf8(s@),
            out@ == bytes@.take(i as int),
            forall|k: int| 0 <= k < i ==> bytes@[k] != 0u8,
        decreases bytes.len() - i,
    {
        if bytes[i] == 0 {
            assert(bytes@[i as int] == 0u8);
            return None;
        }
        out.push(bytes[i]);
        assert(bytes@.take(i as int).push(bytes@[i as int]) =~= bytes@.take(i + 1));
        i = i + 1;
    }
    assert(out@ =~= bytes@);
    Some(out)
}

/// Extract the session name from a socket path.
///
/// Returns the last path component (after the final `/`), or the whole
/// string if there is no `/`.
pub fn session_shortname(sockname: &str) -> (r: &str)
    ensures
        r@ == text::last_piece(sockname@, '/'),
{
    after_last(sockname, '/')
}

/// What becomes of `c` in the name of an environment variable: letters of the
/// ASCII alphabet in upper case, digits as they are, anything else `_`.
pub open spec fn envvar_char(c: char) -> char {
    if 'a' <= c && c <= 'z' {
        (c as u32 - 32) as char
    } else if ('A' <= c && c <= 'Z') || ('0' <= c && c <= '9') {
        c
    } else {
        '_'
    }
}

/// The name of the session environment variable of a program.
pub open spec fn envvar_name(progname: Seq<char>) -> Seq<char> {
    text::last_piece(progname, '/').map_values(|c: char| envvar_char(c)) + "_SESSION"@
}

/// Build the session environment variable name from the program name.
///
/// Replaces non-alphanumeric characters with `_`, uppercases letters, and
/// appends `_SESSION`.  E.g. `"ztch"` → `"ZTCH_SESSION"`,
/// `"my-term"` → `"MY_TERM_SESSION"`.
pub fn session_envvar_name(progname: &str) -> (name: String)
    ensures
        name@ == envvar_name(progname@),
{
    let base: &str = after_last(progname, '/');
    let mut name: String = String::new();
    let ghost mapped = base@.map_values(|c: char| envvar_char(c));
    for c in it: base.chars()
        invariant
            it.seq() == base@,
            mapped == base@.map_values(|c: char| envvar_char(c)),
            name@ == mapped.take(it.index()),
    {
        let u: char = if c >= 'a' && c <= 'z' {
            (c as u8 - 32) as char
        } else if (c >= 'A' && c <= 'Z') || (c >= '0' && c <= '9') {
            c
        } else {
            '_'
        };
        name.push(u);
        assert(mapped.take(it.index()).push(u) =~= mapped.take(it.index() + 1));
    }
    assert(mapped.take(mapped.len() as int) =~= mapped);
    name.append("_SESSION");
    name
}

/// The session directory of a program: `.cache` and the program's name below
/// the home directory, or a directory below `/tmp` that is named after the
/// program and the process where there is no home but the root.
pub open spec fn session_dir(progname: Seq<char>, home: Option<Seq<char>>, pid: nat) -> Seq<char> {
    let base = text::last_piece(progname, '/');
    match home {
        Some(h) if h.len() > 0 && h != "/"@ => text::joined(text::joined(h, ".cache"@), base),
        _ => "/tmp/."@ + base + "-"@ + text::numeral(pid),
    }
}

impl Env {
    /// The home directory, as contracts speak of it.
    pub open spec fn home_view(&self) -> Option<Seq<char>> {
        match self.home {
            Some(h) => Some(h@),
            None => None,
        }
    }
}

/// Return the session directory for a given program name.
///
/// Uses `$HOME/.cache/<progname>` when `HOME` is set and non-empty (and
/// not `/`).  Falls back to `/tmp/.<progname>-<pid>` otherwise.
pub fn get_session_dir(progname: &str, env: &Env) -> (r: String)
    ensures
        r@ == session_dir(progname@, env.home_view(), env.pid as nat),
{
    let base: &str = after_last(progname, '/');
    match &env.home {
        Some(h) => {
            if !h.as_str().is_empty() && !text::same(h.as_str(), "/") {
                let cache: String = join_path(h.as_str(), ".cache");
                return join_path(cache.as_str(), base);
            }
        },
        None => {},
    }
    let mut r: String = "/tmp/.".to_owned();
    r.append(base);
    r.append("-");
    r.append(decimal(env.pid as u64).as_str());
    r
}

/// The socket path that `name` stands for.
pub open spec fn socket_path(
    progname: Seq<char>,
    name: Seq<char>,
    home: Option<Seq<char>>,
    pid: nat,
) -> Seq<char> {
    if name.contains('/') {
        name
    } else {
        text::joined(session_dir(progname, home, pid), name)
    }
}

/// If `name` contains a `/`, return it as-is.  Otherwise join
/// [`get_session_dir`] with `name`.
pub fn expand_sockname(progname: &str, name: &str, env: &Env) -> (r: String)
    ensures
        r@ == socket_path(progname@, name@, env.home_view(), env.pid as nat),
{
    if has_char(name, '/') {
        return name.to_owned();
    }
    let dir: String = get_session_dir(progname, env);
    join_path(dir.as_str(), name)
}

/// A plain session name comes back out of its socket path.
pub proof fn shortname_undoes_expansion(
    progname: Seq<char>,
    name: Seq<char>,
    home: Option<Seq<char>>,
    pid: nat,
)
    requires
        !name.contains('/'),
    ensures
        text::last_piece(socket_path(progname, name, home, pid), '/') == name,
{
    let dir = session_dir(progname, home, pid);
    let path = socket_path(progname, name, home, pid);
    reveal_strlit("/");
    reveal_strlit(".cache");
    reveal_strlit("/tmp/.");
    session_dir_is_not_empty(progname, home, pid);
    if name.len() > 0 {
        assert(name.contains(name[0]));
    }
    let cut = path.len() - name.len();
    assert(path[cut - 1] == '/');
    assert(path.skip(cut) =~= name);
    assert(path.take(path.len() as int) =~= path);
    text::last_piece_starts_at(path, '/', cut, path.len() as int);
}

/// A socket path stands for itself, so expanding it again changes nothing.
pub proof fn expansion_is_idempotent(
    progname: Seq<char>,
    name: Seq<char>,
    home: Option<Seq<char>>,
    pid: nat,
)
    ensures
        socket_path(progname, socket_path(progname, name, home, pid), home, pid) == socket_path(
            progname,
            name,
            home,
            pid,
        ),
        socket_path(progname, name, home, pid).contains('/'),
{
    let path = socket_path(progname, name, home, pid);
    if !name.contains('/') {
        shortname_undoes_expansion(progname, name, home, pid);
        if !path.contains('/') {
            session_dir_is_not_empty(progname, home, pid);
            text::whole_text_is_last_piece(path, '/');
            assert(path.len() > name.len());
        }
    }
}

proof fn session_dir_is_not_empty(progname: Seq<char>, home: Option<Seq<char>>, pid: nat)
    ensures
        session_dir(progname, home, pid).len() > 0,
{
    let base = text::last_piece(progname, '/');
    reveal_strlit(".cache");
    reveal_strlit("/tmp/.");
    text::last_piece_is_maximal(progname, '/');
    if base.len() > 0 {
        assert(base.contains(base[0]));
    }
}

/// The name of the session variable is made of capital letters, digits and
/// underscores.
pub proof fn envvar_name_is_plain(progname: Seq<char>)
    ensures
        forall|i: int|
            0 <= i < envvar_name(progname).len() ==> {
                let c = #[trigger] envvar_name(progname)[i];
                ('A' <= c && c <= 'Z') || ('0' <= c && c <= '9') || c == '_'
            },
{
    reveal_strlit("_SESSION");
    let mapped = text::last_piece(progname, '/').map_values(|c: char| envvar_char(c));
    assert forall|i: int| 0 <= i < envvar_name(progname).len() implies ({
        let c = #[trigger] envvar_name(progname)[i];
        ('A' <= c && c <= 'Z') || ('0' <= c && c <= '9') || c == '_'
    }) by {
        if i < mapped.len() {
            assert(envvar_name(progname)[i] == mapped[i]);
        }
    }
}

/// The number that a run of decimal digits stands for.
pub open spec fn digits_value(s: Seq<char>) -> nat
    decreases s.len(),
{
    if s.len() == 0 {
        0
    } else {
        digits_value(s.drop_last()) * 10 + (s.last() as nat - 48) as nat
    }
}

/// Whether `c` is a decimal digit.
pub open spec fn is_digit(c: char) -> bool {
    '0' <= c && c <= '9'
}

/// The digits of a number: all of it but a leading `+`.
pub open spec fn digits_of(s: Seq<char>) -> Seq<char> {
    if s.len() > 0 && s[0] == '+' {
        s.drop_first()
    } else {
        s
    }
}

/// The number that `s` stands for: an optional `+` and decimal digits, at least
/// one, whose value a `usize` can hold.
pub open spec fn number_value(s: Seq<char>) -> Option<nat> {
    let d = digits_of(s);
    if d.len() > 0 && (forall|i: int| 0 <= i < d.len() ==> is_digit(#[trigger] d[i]))
        && digits_value(d) <= usize::MAX {
        Some(digits_value(d))
    } else {
        None
    }
}

/// The factor that the suffix of a trimmed size stands for.
pub open spec fn size_factor(t: Seq<char>) -> nat {
    if text::finishes_with(t, 'k') || text::finishes_with(t, 'K') {
        1024
    } else if text::finishes_with(t, 'm') || text::finishes_with(t, 'M') {
        1024 * 1024
    } else {
        1
    }
}

/// The number of bytes that a size stands for, where its number can be parsed.
pub open spec fn size_value(s: Seq<char>) -> Option<nat> {
    let t = text::trimmed(s);
    let factor = size_factor(t);
    let num = if factor == 1 {
        t
    } else {
        t.drop_last()
    };
    match number_value(num) {
        Some(v) => Some(v * factor),
        None => None,
    }
}

/// What a size text turns out to be.
#[derive(Clone, Copy, Debug, PartialEq, Eq)]
pub enum SizeText {
    /// Its number cannot be parsed.
    Invalid,
    /// It stands for more bytes than a `usize` can count.
    TooLarge,
    /// It stands for this many bytes.
    Bytes(usize),
}

/// The number that `v[0], ..., v[to - 1]` stand for.
fn parse_number(v: &Vec<char>, to: usize) -> (r: Option<usize>)
    requires
        to <= v.len(),
    ensures
        number_value(v@.take(to as int)) == (match r {
            Some(n) => Some(n as nat),
            None => None,
        }),
{
    let ghost s = v@.take(to as int);
    let ghost d = digits_of(s);
    let from: usize = if to > 0 && v[0] == '+' {
        1
    } else {
        0
    };
    assert(d =~= v@.subrange(from as int, to as int));
    if from == to {
        return None;
    }
    let mut value: usize = 0;
    let mut fits: bool = true;
    let mut i: usize = from;
    while i < to
        invariant
            from <= i <= to <= v.len(),
            d == v@.subrange(from as int, to as int),
            s == v@.take(to as int),
            d == digits_of(s),
            forall|k: int| 0 <= k < i - from ==> is_digit(#[trigger] d[k]),
            fits ==> value == digits_value(d.take(i - from)),
            !fits ==> digits_value(d.take(i - from)) > usize::MAX,
        decreases to - i,
    {
        let c: char = v[i];
        assert(d[i - from] == c);
        if c < '0' || c > '9' {
            assert(!is_digit(d[i - from]));
            return None;
        }
        assert(d.take(i + 1 - from).drop_last() =~= d.take(i - from));
        let digit: usize = c as usize - 48;
        if fits {
            match value.checked_mul(10) {
                Some(tens) => match tens.checked_add(digit) {
                    Some(sum) => {
                        value = sum;
                    },
                    None => {
                        fits = false;
                    },
                },
                None => {
                    fits = false;
                },
            }
        }
        i = i + 1;
    }
    assert(d.take(to - from) =~= d);
    if fits {
        Some(value)
    } else {
        None
    }
}

/// Read a human-readable size.
pub fn scan_size(s: &str) -> (r: SizeText)
    ensures
        r == (match size_value(s@) {
            None => SizeText::Invalid,
            Some(v) => if v > usize::MAX {
                SizeText::TooLarge
            } else {
                SizeText::Bytes(v as usize)
            },
        }),
{
    let t: Vec<char> = trim(s);
    let n: usize = t.len();
    let (len, factor): (usize, usize) = if n > 0 && (t[n - 1] == 'k' || t[n - 1] == 'K') {
        (n - 1, 1024)
    } else if n > 0 && (t[n - 1] == 'm' || t[n - 1] == 'M') {
        (n - 1, 1024 * 1024)
    } else {
        (n, 1)
    };
    proof {
        assert(t@.take(n as int) =~= t@);
        if n > 0 {
            assert(t@.take(n - 1) =~= t@.drop_last());
        }
    }
    match parse_number(&t, len) {
        Some(v) => match v.checked_mul(factor) {
            Some(b) => SizeText::Bytes(b),
            None => SizeText::TooLarge,
        },
        None => SizeText::Invalid,
    }
}

/// Parse a human-readable size string into bytes.
///
/// Supports optional `k`/`K` (kibibytes) and `m`/`M` (mebibytes) suffixes.
/// Returns `None` when the numeric part cannot be parsed.  Examples:
/// `"128k"` → `Some(131072)`, `"4m"` → `Some(4194304)`, `"1024"` →
/// `Some(1024)`, `""` → `None`.
pub fn parse_size(s: &str) -> (r: Option<usize>)
    requires
        size_value(s@) matches Some(v) ==> v <= usize::MAX,
    ensures
        size_value(s@) == (match r {
            Some(n) => Some(n as nat),
            None => None,
        }),
{
    match scan_size(s) {
        SizeText::Bytes(n) => Some(n),
        _ => None,
    }
}

/// The key that is meant by a detach character as users write it.
pub open spec fn escape_key(s: Seq<u8>) -> int {
    if s.len() >= 2 && s[0] == 0x5e {
        if s[1] == 0x3f {
            0x7f
        } else {
            (s[1] & 0x1f) as int
        }
    } else if s.len() > 0 {
        s[0] as int
    } else {
        0
    }
}

/// Parse a detach character as users write it.
///
/// Supports `^<char>` (control character, e.g. `^\` → `0x1c`, `^?` →
/// `0x7f`).  Falls back to the byte value of the first character, or 0
/// on empty input.
pub fn parse_escape_char(s: &str) -> (r: i32)
    ensures
        r == escape_key(utf8(s@)),
        0 <= r <= 255,
{
    let b: &[u8] = s.as_bytes();
    if b.len() >= 2 && b[0] == 0x5e {
        if b[1] == 0x3f {
            return 0x7f;
        }
        return (b[1] & 0x1f) as i32;
    }
    if b.len() > 0 {
        b[0] as i32
    } else {
        0
    }
}

/// How many newlines `c` holds.
pub open spec fn newlines(c: Seq<u8>) -> nat
    decreases c.len(),
{
    if c.len() == 0 {
        0
    } else {
        newlines(c.drop_last()) + (if c.last() == 10 {
            1nat
        } else {
            0
        })
    }
}

/// The place just after the newline that has `k` more newlines behind it, or 0
/// where there is none such.
pub open spec fn after_newline(c: Seq<u8>, k: int) -> int
    decreases c.len(),
{
    if c.len() == 0 {
        0
    } else if c.last() == 10 {
        if k <= 0 {
            c.len() as int
        } else {
            after_newline(c.drop_last(), k - 1)
        }
    } else {
        after_newline(c.drop_last(), k)
    }
}

/// Whether `c` ends in a line that no newline closes.
pub open spec fn has_open_line(c: Seq<u8>) -> bool {
    c.len() > 0 && c.last() != 10
}

/// How many lines `c` holds: those that a newline closes, and the open one at
/// the end where there is one.
pub open spec fn line_count(c: Seq<u8>) -> nat {
    newlines(c) + (if has_open_line(c) {
        1nat
    } else {
        0
    })
}

/// Where to start reading a file with contents `c` to see its last `nlines`
/// lines, or the start of the file where there are no more. No line at all
/// leaves the open line at the end, and fewer than none leave everything.
pub open spec fn tail_start(c: Seq<u8>, nlines: int) -> int {
    if nlines < 0 {
        0
    } else if nlines > 0 && has_open_line(c) {
        after_newline(c, nlines - 1)
    } else {
        after_newline(c, nlines)
    }
}

/// The newlines behind the place that [`after_newline`] finds number `k`,
/// except where there are no more than that in all.
proof fn place_has_newlines_behind(c: Seq<u8>, k: int)
    requires
        k >= 0,
    ensures
        0 <= after_newline(c, k) <= c.len(),
        newlines(c) > k ==> {
            let start = after_newline(c, k);
            &&& newlines(c.skip(start)) == k
            &&& start > 0
            &&& c[start - 1] == 10
        },
        newlines(c) <= k ==> after_newline(c, k) == 0,
    decreases c.len(),
{
    if c.len() > 0 {
        let init = c.drop_last();
        if c.last() == 10 && k == 0 {
            assert(c.skip(c.len() as int) =~= Seq::empty());
        } else {
            let m = if c.last() == 10 {
                k - 1
            } else {
                k
            };
            place_has_newlines_behind(init, m);
            let start = after_newline(init, m);
            assert(c.skip(start).len() > 0 ==> c.skip(start).drop_last() =~= init.skip(start));
        }
    }
}

/// The tail is the last `nlines` lines of the file, whether or not a newline
/// closes the last of them: it starts a line and holds that many, except where
/// the file has no more, which is then shown from its start.
pub proof fn tail_is_the_last_lines(c: Seq<u8>, nlines: int)
    requires
        nlines >= 1,
    ensures
        0 <= tail_start(c, nlines) <= c.len(),
        line_count(c) <= nlines ==> tail_start(c, nlines) == 0,
        line_count(c) > nlines ==> {
            let start = tail_start(c, nlines);
            &&& start > 0
            &&& c[start - 1] == 10
            &&& line_count(c.skip(start)) == nlines
        },
{
    let k = if has_open_line(c) {
        nlines - 1
    } else {
        nlines
    };
    place_has_newlines_behind(c, k);
    if newlines(c) > k {
        let start = tail_start(c, nlines);
        if start < c.len() {
            assert(c.skip(start).last() == c.last());
        } else {
            assert(newlines(c.skip(start)) == 0);
        }
    }
}

/// Scanning a file from its end in two parts is scanning it as a whole.
proof fn after_newline_in_two_parts(a: Seq<u8>, b: Seq<u8>, k: int)
    requires
        k >= 0,
    ensures
        after_newline(a + b, k) == (if newlines(b) > k {
            a.len() + after_newline(b, k)
        } else {
            after_newline(a, k - newlines(b))
        }),
    decreases b.len(),
{
    if b.len() == 0 {
        assert(a + b =~= a);
    } else {
        assert((a + b).drop_last() =~= a + b.drop_last());
        if b.last() == 10 {
            if k > 0 {
                after_newline_in_two_parts(a, b.drop_last(), k - 1);
            }
        } else {
            after_newline_in_two_parts(a, b.drop_last(), k);
        }
    }
}

/// A search for the start of a file's last lines, from the end backwards and
/// chunk by chunk.
#[derive(Clone, Copy, Debug)]
pub struct TailScan {
    /// Where the part that was searched begins.
    pub pos: u64,
    /// How many more newlines to pass over.
    pub left: i64,
    /// Whether nothing was searched yet, so that the next chunk ends where the
    /// file does.
    pub at_end: bool,
    /// The result, once it is known.
    pub found: Option<u64>,
}

/// What a search needs next.
#[derive(Clone, Copy, Debug, PartialEq, Eq)]
pub enum TailStep {
    /// The `len` bytes of the file from `pos` on.
    Read { pos: u64, len: usize },
    /// Nothing: this is where to start.
    Done(u64),
}

impl TailScan {
    /// A search that is not over has something left to search, and offsets
    /// stay where a file can have them.
    pub open spec fn wf(&self) -> bool {
        self.found is None ==> {
            &&& 0 < self.pos <= i64::MAX
            &&& 0 <= self.left
        }
    }

    /// How many bytes the search asks for next.
    pub open spec fn chunk(&self) -> int {
        if self.pos > BUFSIZE {
            BUFSIZE as int
        } else {
            self.pos as int
        }
    }

    /// Begin to search a file of `size` bytes.
    pub fn new(size: u64, nlines: i32) -> (s: TailScan)
        ensures
            s.wf(),
            begun(s, size, nlines),
    {
        if size == 0 || size > i64::MAX as u64 || nlines < 0 {
            TailScan { pos: 0, left: 0, at_end: false, found: Some(0) }
        } else {
            TailScan { pos: size, left: nlines as i64, at_end: true, found: None }
        }
    }

    /// What the search needs next.
    pub fn next(&self) -> (r: TailStep)
        requires
            self.wf(),
        ensures
            r == (match self.found {
                Some(start) => TailStep::Done(start),
                None => TailStep::Read {
                    pos: (self.pos - self.chunk()) as u64,
                    len: self.chunk() as usize,
                },
            }),
    {
        match self.found {
            Some(start) => TailStep::Done(start),
            None => {
                let len: u64 = if self.pos > BUFSIZE as u64 {
                    BUFSIZE as u64
                } else {
                    self.pos
                };
                TailStep::Read { pos: self.pos - len, len: len as usize }
            },
        }
    }

    /// How many newlines to pass over in `chunk` and before it: one fewer than
    /// else where `chunk` ends the file in an open line, which counts as a line
    /// by itself.
    pub open spec fn passes(&self, chunk: Seq<u8>) -> int {
        if self.at_end && self.left > 0 && has_open_line(chunk) {
            self.left - 1
        } else {
            self.left as int
        }
    }

    /// Search the bytes that were read where [`Self::next`] asked. A read that
    /// brings nothing ends the search at the file's start.
    pub fn feed(&mut self, chunk: &[u8])
        requires
            old(self).wf(),
            old(self).found is None,
            chunk@.len() <= old(self).chunk(),
        ensures
            final(self).wf(),
            searched(*old(self), chunk@, *final(self)),
    {
        let ghost left0 = self.passes(chunk@);
        let len: u64 = if self.pos > BUFSIZE as u64 {
            BUFSIZE as u64
        } else {
            self.pos
        };
        self.pos = self.pos - len;
        if chunk.len() == 0 {
            self.at_end = false;
            self.found = Some(0);
            return;
        }
        if self.at_end && self.left > 0 && chunk[chunk.len() - 1] != 10 {
            self.left = self.left - 1;
        }
        self.at_end = false;
        let ghost pos1 = self.pos;
        let mut i: usize = chunk.len();
        assert(chunk@.take(i as int) =~= chunk@);
        while i > 0
            invariant
                i <= chunk@.len() <= len,
                len <= BUFSIZE,
                self.pos == pos1,
                pos1 == old(self).pos - old(self).chunk(),
                pos1 + len <= i64::MAX,
                left0 == old(self).passes(chunk@),
                !self.at_end,
                self.found is None,
                0 <= self.left <= left0,
                newlines(chunk@) == newlines(chunk@.take(i as int)) + (left0 - self.left),
                newlines(chunk@.take(i as int)) > self.left ==> after_newline(chunk@, left0)
                    == after_newline(chunk@.take(i as int), self.left as int),
            decreases i,
        {
            assert(chunk@.take(i as int).drop_last() =~= chunk@.take(i - 1));
            assert(chunk@.take(i as int).last() == chunk@[i - 1]);
            if chunk[i - 1] == 10 {
                if self.left == 0 {
                    self.found = Some(self.pos + i as u64);
                    return;
                }
                self.left = self.left - 1;
            }
            i = i - 1;
        }
        assert(newlines(chunk@.take(0)) == 0);
        if self.pos == 0 {
            self.found = Some(0);
        }
    }
}

/// Whether `scan` is the beginning of a search for the last `nlines` lines of a
/// file of `size` bytes. Where there is nothing to search, it is over.
pub open spec fn begun(scan: TailScan, size: u64, nlines: i32) -> bool {
    if 0 < size <= i64::MAX && nlines >= 0 {
        scan.found is None && scan.at_end && scan.pos == size && scan.left == nlines
    } else {
        scan.found == Some(0u64) && scan.pos == 0
    }
}

/// Whether `next` is the search `scan` after it has searched `chunk`.
pub open spec fn searched(scan: TailScan, chunk: Seq<u8>, next: TailScan) -> bool {
    let left = scan.passes(chunk);
    &&& next.pos == scan.pos - scan.chunk()
    &&& !next.at_end
    &&& chunk.len() == 0 ==> next.found == Some(0u64)
    &&& chunk.len() > 0 && newlines(chunk) > left ==> next.found == Some(
        (next.pos + after_newline(chunk, left)) as u64,
    )
    &&& chunk.len() > 0 && newlines(chunk) <= left ==> {
        &&& next.left == left - newlines(chunk)
        &&& next.found == (if next.pos == 0 {
            Some(0u64)
        } else {
            None
        })
    }
}

/// Whether the search `scan` is on the way to the last `nlines` lines of a file
/// with contents `c`: it has not begun, or what it has found is their start, or
/// they start where the rest of the search will find it.
pub open spec fn on_track(scan: TailScan, c: Seq<u8>, nlines: int) -> bool {
    &&& scan.pos <= c.len()
    &&& match scan.found {
        Some(start) => start == tail_start(c, nlines),
        None => nlines >= 0 && (if scan.at_end {
            scan.pos == c.len() && scan.left == nlines
        } else {
            tail_start(c, nlines) == after_newline(c.take(scan.pos as int), scan.left as int)
        }),
    }
}

/// A search is on track when it begins.
pub proof fn search_begins_on_track(scan: TailScan, c: Seq<u8>, nlines: i32)
    requires
        c.len() <= i64::MAX,
        begun(scan, c.len() as u64, nlines),
    ensures
        on_track(scan, c, nlines as int),
{
    assert(c.take(c.len() as int) =~= c);
}

/// A search that reads what it asks for stays on track with each chunk, and gets
/// closer to the file's start, so that it ends at the start of the last lines.
pub proof fn search_stays_on_track(
    scan: TailScan,
    c: Seq<u8>,
    nlines: int,
    chunk: Seq<u8>,
    next: TailScan,
)
    requires
        scan.wf(),
        scan.found is None,
        c.len() <= i64::MAX,
        on_track(scan, c, nlines),
        chunk == c.subrange(scan.pos - scan.chunk(), scan.pos as int),
        searched(scan, chunk, next),
    ensures
        on_track(next, c, nlines),
        next.pos < scan.pos,
{
    let a = c.take(next.pos as int);
    let left = scan.passes(chunk);
    assert(a + chunk =~= c.take(scan.pos as int));
    if scan.at_end {
        assert(c.take(scan.pos as int) =~= c);
        assert(chunk.last() == c.last());
    }
    after_newline_in_two_parts(a, chunk, left);
    if newlines(chunk) > left {
        place_has_newlines_behind(chunk, left);
    } else if next.pos == 0 {
        assert(a.len() == 0);
    }
}

/// Find the byte offset in a file with the given contents at which its last
/// `nlines` lines start.
///
/// Used by the `tail` command to locate where to start reading.  Scans
/// backwards, in `BUFSIZE` chunks.  Returns the offset just after the newline
/// before them (or 0 when there are fewer than `nlines` lines).
pub fn find_tail_start(content: &[u8], nlines: i32) -> (r: u64)
    requires
        content@.len() <= i64::MAX,
    ensures
        r == tail_start(content@, nlines as int),
{
    let size: usize = content.len();
    let mut scan: TailScan = TailScan::new(size as u64, nlines);
    proof {
        search_begins_on_track(scan, content@, nlines);
    }
    loop
        invariant
            scan.wf(),
            content@.len() == size <= i64::MAX,
            on_track(scan, content@, nlines as int),
        decreases scan.pos, (if scan.found is None {
            1int
        } else {
            0int
        }),
    {
        match scan.next() {
            TailStep::Done(start) => {
                return start;
            },
            TailStep::Read { pos, len } => {
                let chunk: &[u8] = slice_subrange(content, pos as usize, pos as usize + len);
                let ghost before = scan;
                scan.feed(chunk);
                proof {
                    search_stays_on_track(before, content@, nlines as int, chunk@, scan);
                }
            },
        }
    }
}

/// Whether `term` holds the attributes of the terminal, or zeros where there is
/// none, which `failed` tells.
pub open spec fn term_saved(attributes: Option<Termios>, term: Termios, failed: bool) -> bool {
    &&& failed == (attributes is None)
    &&& match attributes {
        Some(t) => term == t,
        None => {
            &&& term.iflag == 0
            &&& term.oflag == 0
            &&& term.cflag == 0
            &&& term.lflag == 0
            &&& term.cc@ == Seq::new(32, |i: int| 0u8)
        },
    }
}

/// Save the attributes of the terminal on standard input.
///
/// Returns a tuple of `(attributes, failed)` where `failed` is true when they
/// could not be read (i.e. standard input is not a terminal).
pub fn save_term(attributes: Option<Termios>) -> (r: (Termios, bool))
    ensures
        term_saved(attributes, r.0, r.1),
{
    match attributes {
        Some(t) => (t, false),
        None => {
            let cc: [u8; 32] = [0u8;32];
            assert(cc@ =~= Seq::new(32, |i: int| 0u8));
            (Termios { iflag: 0, oflag: 0, cflag: 0, lflag: 0, cc }, true)
        },
    }
}

} // verus!
