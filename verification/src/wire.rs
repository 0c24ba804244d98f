//! The wire parser: from the text of one request to its method, path,
//! identifier and body.
//!
//! A request is read as `METHOD PATH VERSION`, a line break, header lines
//! that are ignored, a blank line, and the body. Nothing is validated here:
//! every text has a method, a path and a body, possibly empty.

use crate::decimal::{decimal_text, digit_char, digits_of};
use crate::text::{
    chars_of, find_char, find_from, find_seq, find_seq_from, lemma_find_from,
    lemma_find_seq_from, piece, piece_bounds, starts_with, trim_end, trim_end_at,
};
use vstd::prelude::*;

verus! {

/// The separator between the head of a request and its body.
pub open spec fn blank_line() -> Seq<char> {
    seq!['\r', '\n', '\r', '\n']
}

/// Where the request line ends: at the first carriage return or line feed,
/// or at the end of the text.
pub open spec fn line_end(t: Seq<char>) -> int {
    let cr = find_from(t, '\r', 0);
    let lf = find_from(t, '\n', 0);
    if cr <= lf {
        cr
    } else {
        lf
    }
}

/// The request line: the text up to the first line break.
pub open spec fn request_line(t: Seq<char>) -> Seq<char> {
    t.take(line_end(t))
}

/// Where the method ends: at the first space of the request line.
pub open spec fn method_end(t: Seq<char>) -> int {
    find_from(request_line(t), ' ', 0)
}

/// Where the path begins: behind the first space of the request line.
pub open spec fn path_start(t: Seq<char>) -> int {
    if method_end(t) >= line_end(t) {
        line_end(t)
    } else {
        method_end(t) + 1
    }
}

/// Where the path ends: at the next space of the request line.
pub open spec fn path_end(t: Seq<char>) -> int {
    find_from(request_line(t), ' ', path_start(t))
}

/// The method: the token of the request line before its first space.
pub open spec fn method_of(t: Seq<char>) -> Seq<char> {
    t.subrange(0, method_end(t))
}

/// The path: the token of the request line between its first space and the
/// next one. Empty when the line has no space.
pub open spec fn path_of(t: Seq<char>) -> Seq<char> {
    t.subrange(path_start(t), path_end(t))
}

/// Where the body begins: behind the first blank line, or at the end of the
/// text when it has none.
pub open spec fn body_start(t: Seq<char>) -> int {
    let at = find_seq_from(t, blank_line(), 0);
    if at >= t.len() {
        t.len() as int
    } else {
        at + 4
    }
}

/// The body: everything behind the first blank line.
pub open spec fn body_of(t: Seq<char>) -> Seq<char> {
    t.skip(body_start(t))
}

/// The identifier as it is written in a path: the third piece of the path
/// cut at every slash, without trailing white space. Empty when the path has
/// fewer pieces.
pub open spec fn id_text_of_path(path: Seq<char>) -> Seq<char> {
    trim_end(piece(path, '/', 2))
}

/// The identifier as it is written in the request.
pub open spec fn id_text_of(t: Seq<char>) -> Seq<char> {
    id_text_of_path(path_of(t))
}

/// Whether `c` is one of the ten decimal digits.
pub open spec fn is_digit(c: char) -> bool {
    0x30 <= c as u32 <= 0x39
}

/// Whether `s` holds decimal digits only.
pub open spec fn all_digits(s: Seq<char>) -> bool {
    forall|i: int| 0 <= i < s.len() ==> is_digit(#[trigger] s[i])
}

/// The number that the decimal digits `s` write.
pub open spec fn digits_value(s: Seq<char>) -> nat
    decreases s.len(),
{
    if s.len() == 0 {
        0
    } else {
        (digits_value(s.drop_last()) * 10 + (s.last() as u32 - 0x30)) as nat
    }
}

/// The digits of a signed decimal numeral: `s` without a leading sign.
pub open spec fn unsigned_part(s: Seq<char>) -> Seq<char> {
    if s.len() > 0 && (s[0] == '-' || s[0] == '+') {
        s.skip(1)
    } else {
        s
    }
}

/// The 32-bit integer that `s` writes in decimal: an optional `+` or `-`,
/// then one digit or more and nothing else, with a value that fits.
pub open spec fn decimal_i32(s: Seq<char>) -> Option<i32> {
    let digits = unsigned_part(s);
    let magnitude = digits_value(digits);
    let value = if s.len() > 0 && s[0] == '-' {
        -magnitude
    } else {
        magnitude as int
    };
    if digits.len() > 0 && all_digits(digits) && i32::MIN <= value <= i32::MAX {
        Some(value as i32)
    } else {
        None
    }
}

/// The identifier of the request: the number its identifier text writes.
pub open spec fn id_of(t: Seq<char>) -> Option<i32> {
    decimal_i32(id_text_of(t))
}

/// One request, as the handlers see it.
#[derive(Debug, Clone, PartialEq, Eq)]
pub struct Request {
    pub method: String,
    pub path: String,
    pub id: Option<i32>,
    pub body: String,
}

/// The mathematical content of a request.
pub struct RequestView {
    pub method: Seq<char>,
    pub path: Seq<char>,
    pub id: Option<i32>,
    pub body: Seq<char>,
}

impl View for Request {
    type V = RequestView;

    open spec fn view(&self) -> RequestView {
        RequestView { method: self.method@, path: self.path@, id: self.id, body: self.body@ }
    }
}

/// The request that a text holds.
pub open spec fn request_of(t: Seq<char>) -> RequestView {
    RequestView { method: method_of(t), path: path_of(t), id: id_of(t), body: body_of(t) }
}

/// The text that `String::from_utf8_lossy` makes of `bytes`: their UTF-8
/// reading, with U+FFFD in place of each ill-formed sequence.
pub uninterp spec fn utf8_lossy(bytes: Seq<u8>) -> Seq<char>;

/// Calls `String::from_utf8_lossy` of std and owns the result. The contract
/// names the text and claims nothing else of it.
#[verifier::external_body]
fn lossy_text(buffer: &[u8]) -> (text: String)
    ensures
        text@ == utf8_lossy(buffer@),
{
    String::from_utf8_lossy(buffer).into_owned()
}

/// A prefix holds no more digits' worth than the whole numeral.
proof fn lemma_digits_value_grows(s: Seq<char>, n: int)
    requires
        0 <= n <= s.len(),
        all_digits(s),
    ensures
        digits_value(s.take(n)) <= digits_value(s),
    decreases s.len(),
{
    if n == s.len() {
        assert(s.take(n) =~= s);
    } else {
        let shorter = s.drop_last();
        assert(shorter.take(n) =~= s.take(n));
        assert(is_digit(s[s.len() - 1]));
        assert(all_digits(shorter)) by {
            assert forall|i: int| 0 <= i < shorter.len() implies is_digit(
                #[trigger] shorter[i],
            ) by {
                assert(shorter[i] == s[i]);
            }
        }
        lemma_digits_value_grows(shorter, n);
    }
}

/// The digits of a number are digits, and write that number.
proof fn lemma_digits_read_back(n: nat)
    ensures
        digits_of(n).len() > 0,
        all_digits(digits_of(n)),
        digits_value(digits_of(n)) == n,
    decreases n,
{
    let s = digits_of(n);
    if n >= 10 {
        let shorter = digits_of(n / 10);
        lemma_digits_read_back(n / 10);
        assert(s.drop_last() =~= shorter);
        assert(s.last() == digit_char((n % 10) as int));
        assert(s.last() as u32 - 0x30 == n % 10);
        assert(digits_value(s) == digits_value(shorter) * 10 + n % 10);
        assert forall|i: int| 0 <= i < s.len() implies is_digit(#[trigger] s[i]) by {
            if i < shorter.len() {
                assert(s[i] == shorter[i]);
            }
        }
    } else {
        assert(s.drop_last() =~= Seq::<char>::empty());
        assert(s.last() == digit_char(n as int));
        assert(s.last() as u32 - 0x30 == n);
        assert(digits_value(s.drop_last()) == 0);
    }
}

/// Written and read back. The decimal text of a 32-bit integer, as it
/// stands in the JSON of a record, is read from a path as that integer.
pub proof fn law_decimal_reads_back(n: i32)
    ensures
        decimal_i32(decimal_text(n as int)) == Some(n),
{
    let text = decimal_text(n as int);
    if n < 0 {
        let digits = digits_of((-n) as nat);
        lemma_digits_read_back((-n) as nat);
        assert(text[0] == '-');
        assert(unsigned_part(text) =~= digits);
    } else {
        lemma_digits_read_back(n as nat);
        assert(is_digit(text[0]));
        assert(unsigned_part(text) == text);
    }
}

/// Whether `s` is one token of a request line: it holds no space and no
/// line break.
pub open spec fn is_token(s: Seq<char>) -> bool {
    forall|i: int| 0 <= i < s.len() ==> s[i] != ' ' && s[i] != '\r' && s[i] != '\n'
}

/// Method and prefix, read off the text. A request has the method `method`
/// and a path that begins with `prefix` exactly when its text begins with
/// the method, one space, and the prefix.
pub proof fn law_prefix_of_text(t: Seq<char>, method: Seq<char>, prefix: Seq<char>)
    requires
        is_token(method),
        is_token(prefix),
        prefix.len() > 0,
    ensures
        starts_with(t, method + seq![' '] + prefix) <==> method_of(t) == method && starts_with(
            path_of(t),
            prefix,
        ),
{
    let head = method + seq![' '] + prefix;
    let m = method.len() as int;
    let p = prefix.len() as int;
    let line = request_line(t);
    lemma_find_from(t, '\r', 0);
    lemma_find_from(t, '\n', 0);
    let e = line_end(t);
    lemma_find_from(line, ' ', 0);
    let me = method_end(t);
    let ps = path_start(t);
    lemma_find_from(line, ' ', ps);
    let pe = path_end(t);
    if starts_with(t, head) {
        assert forall|k: int| 0 <= k < head.len() implies t[k] == head[k] by {
            assert(t.subrange(0, head.len() as int)[k] == head[k]);
        }
        assert(e >= m + 1 + p) by {
            if e < m + 1 + p {
                assert(t[e] == head[e]);
                if e < m {
                    assert(head[e] == method[e]);
                } else if e > m {
                    assert(head[e] == prefix[e - m - 1]);
                }
            }
        }
        assert(line[m] == ' ') by {
            assert(t[m] == head[m]);
        }
        assert(me == m) by {
            if me < m {
                assert(line[me] == t[me]);
                assert(t[me] == head[me]);
                assert(head[me] == method[me]);
            }
        }
        assert(method_of(t) =~= method) by {
            assert forall|k: int| 0 <= k < m implies t.subrange(0, m)[k] == method[k] by {
                assert(t[k] == head[k]);
            }
        }
        assert(ps == m + 1);
        assert(pe >= m + 1 + p) by {
            if pe < m + 1 + p {
                assert(line[pe] == t[pe]);
                assert(t[pe] == head[pe]);
                assert(head[pe] == prefix[pe - m - 1]);
            }
        }
        assert(path_of(t).subrange(0, p) =~= prefix) by {
            assert forall|k: int| 0 <= k < p implies path_of(t).subrange(0, p)[k] == prefix[k] by {
                assert(t[m + 1 + k] == head[m + 1 + k]);
            }
        }
    }
    if method_of(t) == method && starts_with(path_of(t), prefix) {
        assert(me == m) by {
            assert(method_of(t).len() == me);
        }
        assert(path_of(t).len() == pe - ps);
        assert(me < e);
        assert(ps == m + 1);
        assert(line[m] == ' ');
        assert(t[m] == ' ') by {
            assert(line[m] == t[m]);
        }
        assert(m + 1 + p <= t.len());
        assert(t.subrange(0, head.len() as int) =~= head) by {
            assert forall|k: int| 0 <= k < head.len() implies t.subrange(0, head.len() as int)[k]
                == head[k] by {
                if k < m {
                    assert(method_of(t)[k] == t[k]);
                } else if k > m {
                    assert(path_of(t).subrange(0, p)[k - m - 1] == prefix[k - m - 1]);
                    assert(path_of(t)[k - m - 1] == t[k]);
                }
            }
        }
    }
}

/// The positions at which a request text is cut.
struct Cuts {
    method_end: usize,
    path_start: usize,
    path_end: usize,
    body_start: usize,
}

/// A copy of `s[from..to]`.
fn copy_range(s: &Vec<char>, from: usize, to: usize) -> (r: Vec<char>)
    requires
        from <= to <= s.len(),
    ensures
        r@ == s@.subrange(from as int, to as int),
{
    let mut r: Vec<char> = Vec::new();
    let mut i: usize = from;
    while i < to
        invariant
            from <= i <= to <= s.len(),
            r@ == s@.subrange(from as int, i as int),
        decreases to - i,
    {
        r.push(s[i]);
        assert(r@ =~= s@.subrange(from as int, i + 1));
        i += 1;
    }
    assert(r@ =~= s@.subrange(from as int, to as int));
    r
}

/// Finds where the method, the path and the body stand in `chars`.
fn cut(chars: &Vec<char>) -> (c: Cuts)
    ensures
        c.method_end == method_end(chars@),
        c.path_start == path_start(chars@),
        c.path_end == path_end(chars@),
        c.body_start == body_start(chars@),
        c.method_end <= c.path_start <= c.path_end <= chars.len(),
        c.body_start <= chars.len(),
{
    let cr = find_char(chars, '\r', 0);
    let lf = find_char(chars, '\n', 0);
    let end = if cr <= lf {
        cr
    } else {
        lf
    };
    let line = copy_range(chars, 0, end);
    assert(line@ =~= request_line(chars@));
    let method_end = find_char(&line, ' ', 0);
    let path_start = if method_end >= end {
        end
    } else {
        method_end + 1
    };
    let path_end = find_char(&line, ' ', path_start);
    let mut separator: Vec<char> = Vec::new();
    separator.push('\r');
    separator.push('\n');
    separator.push('\r');
    separator.push('\n');
    assert(separator@ =~= blank_line());
    let at = find_seq(chars, &separator, 0);
    let body_start = if at >= chars.len() {
        chars.len()
    } else {
        proof {
            lemma_find_seq_from(chars@, blank_line(), 0);
        }
        at + 4
    };
    Cuts { method_end, path_start, path_end, body_start }
}

/// The bounds of the identifier text inside `path`.
fn id_bounds(path: &Vec<char>) -> (r: (usize, usize))
    ensures
        r.0 <= r.1 <= path.len(),
        path@.subrange(r.0 as int, r.1 as int) == id_text_of_path(path@),
{
    match piece_bounds(path, '/', 2) {
        Some((start, end)) => {
            let stop = trim_end_at(path, start, end);
            assert(path@.subrange(start as int, stop as int) =~= trim_end(
                path@.subrange(start as int, end as int),
            ));
            (start, stop)
        },
        None => {
            assert(path@.subrange(0, 0) =~= trim_end(Seq::<char>::empty()));
            (0, 0)
        },
    }
}

/// Extracts the identifier text from a request: the third piece of its path,
/// without trailing white space. Empty when the path has no third piece.
pub fn get_id<'a>(request: &'a str) -> (id: &'a str)
    ensures
        id@ == id_text_of(request@),
{
    let chars = chars_of(request);
    let cuts = cut(&chars);
    let path = copy_range(&chars, cuts.path_start, cuts.path_end);
    let (from, to) = id_bounds(&path);
    assert(chars@.subrange(cuts.path_start + from, cuts.path_start + to) =~= path@.subrange(
        from as int,
        to as int,
    ));
    request.substring_char(cuts.path_start + from, cuts.path_start + to)
}

/// Reads a 32-bit integer written in decimal, as `str::parse::<i32>` does:
/// an optional sign, then digits only. `None` for anything else, and for a
/// value that does not fit.
pub fn parse_id(text: &str) -> (id: Option<i32>)
    ensures
        id == decimal_i32(text@),
{
    let chars = chars_of(text);
    let n = chars.len();
    if n == 0 {
        return None;
    }
    let negative = chars[0] == '-';
    let first: usize = if negative || chars[0] == '+' {
        1
    } else {
        0
    };
    if first == n {
        return None;
    }
    let ghost digits = unsigned_part(chars@);
    assert(digits =~= chars@.subrange(first as int, n as int));
    let mut value: i64 = 0;
    let mut i: usize = first;
    while i < n
        invariant
            first <= i <= n == chars.len(),
            chars@ == text@,
            digits == unsigned_part(chars@),
            digits == chars@.subrange(first as int, n as int),
            all_digits(digits.take(i - first)),
            value == digits_value(digits.take(i - first)),
            0 <= value <= 2147483648,
        decreases n - i,
    {
        let code: u32 = chars[i] as u32;
        assert(digits[i - first] == chars@[i as int]);
        if code < 0x30 || code > 0x39 {
            assert(!is_digit(digits[i - first]));
            assert(!all_digits(digits));
            return None;
        }
        let ghost before = digits.take(i - first);
        let ghost after = digits.take(i + 1 - first);
        assert(after.drop_last() =~= before);
        assert(after.last() == chars@[i as int]);
        assert(all_digits(after)) by {
            assert forall|j: int| 0 <= j < after.len() implies is_digit(#[trigger] after[j]) by {
                if j < before.len() {
                    assert(after[j] == before[j]);
                }
            }
        }
        value = value * 10 + (code - 0x30) as i64;
        assert(value == digits_value(after));
        if value > 2147483648 {
            proof {
                if all_digits(digits) {
                    lemma_digits_value_grows(digits, i + 1 - first);
                    assert(digits_value(digits) > 2147483648);
                }
            }
            return None;
        }
        i += 1;
    }
    assert(digits.take(n - first) =~= digits);
    if negative {
        Some((-value) as i32)
    } else if value <= 2147483647 {
        Some(value as i32)
    } else {
        None
    }
}

/// Parses the text of one request.
pub fn parse_request(text: &str) -> (request: Request)
    ensures
        request@ == request_of(text@),
{
    let chars = chars_of(text);
    let cuts = cut(&chars);
    let path = copy_range(&chars, cuts.path_start, cuts.path_end);
    let (from, to) = id_bounds(&path);
    assert(chars@.subrange(cuts.path_start + from, cuts.path_start + to) =~= path@.subrange(
        from as int,
        to as int,
    ));
    let id = parse_id(text.substring_char(cuts.path_start + from, cuts.path_start + to));
    assert(chars@.subrange(cuts.body_start as int, chars.len() as int) =~= chars@.skip(
        cuts.body_start as int,
    ));
    Request {
        method: text.substring_char(0, cuts.method_end).to_owned(),
        path: text.substring_char(cuts.path_start, cuts.path_end).to_owned(),
        id,
        body: text.substring_char(cuts.body_start, chars.len()).to_owned(),
    }
}

/// Reads one request from the bytes of a single read. The bytes are taken as
/// UTF-8, each ill-formed sequence giving U+FFFD, and the text is parsed.
pub fn read_request(buffer: &[u8]) -> (request: Request)
    ensures
        request@ == request_of(utf8_lossy(buffer@)),
{
    let text = lossy_text(buffer);
    parse_request(text.as_str())
}

} // verus!
