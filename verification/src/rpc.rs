//! JSON-RPC 2.0 over HTTP/1.1: framing requests out of a byte stream, reading
//! `Content-Length`, decoding a request into a command, and the error codes.
use vstd::prelude::*;
use vstd::string::*;
use crate::dom::DOMElementNode;
use crate::supervisor::{decimal, decimal_chars, digit};
use crate::text::{ascii_lower, chars_of, contains, str_contains, str_eq, string_of, to_ascii_lower, trim, trim_chars};
use crate::types::{opt_view, MacroStep};

verus! {

/// The largest request body accepted (16 MiB).
pub const MAX_BODY_SIZE: usize = 16777216;

// ---------------------------------------------------------------------------
// Byte search
// ---------------------------------------------------------------------------

/// `needle` occurs in `hay` at position `i`.
pub open spec fn window_at(hay: Seq<u8>, needle: Seq<u8>, i: int) -> bool {
    0 <= i && i + needle.len() <= hay.len() && hay.subrange(i, i + needle.len()) == needle
}

/// The first position at or after `i` where `needle` occurs.
pub open spec fn first_window_from(hay: Seq<u8>, needle: Seq<u8>, i: int) -> Option<int>
    decreases hay.len() + 1 - i,
{
    if i < 0 || i + needle.len() > hay.len() {
        None
    } else if window_at(hay, needle, i) {
        Some(i)
    } else {
        first_window_from(hay, needle, i + 1)
    }
}

/// The first position where `needle` occurs.
pub open spec fn first_window(hay: Seq<u8>, needle: Seq<u8>) -> Option<int> {
    first_window_from(hay, needle, 0)
}

proof fn lemma_first_window_from(hay: Seq<u8>, needle: Seq<u8>, i: int)
    requires
        0 <= i,
    ensures
        match first_window_from(hay, needle, i) {
            Some(k) => i <= k && window_at(hay, needle, k) && forall|j: int| i <= j < k ==> !window_at(hay, needle, j),
            None => forall|j: int| i <= j ==> !window_at(hay, needle, j),
        },
    decreases hay.len() + 1 - i,
{
    if i + needle.len() > hay.len() {
    } else if window_at(hay, needle, i) {
    } else {
        lemma_first_window_from(hay, needle, i + 1);
    }
}

fn window_matches(hay: &[u8], needle: &[u8], i: usize) -> (b: bool)
    requires
        i + needle@.len() <= hay@.len(),
    ensures
        b == window_at(hay@, needle@, i as int),
{
    let hl = hay.len();
    let mut k: usize = 0;
    while k < needle.len()
        invariant
            hl == hay@.len(),
            i + needle@.len() <= hay@.len(),
            k <= needle@.len(),
            forall|j: int| 0 <= j < k ==> hay@[i + j] == needle@[j],
        decreases needle@.len() - k,
    {
        if hay[i + k] != needle[k] {
            assert(hay@.subrange(i as int, i + needle@.len())[k as int] != needle@[k as int]);
            return false;
        }
        k += 1;
    }
    assert(hay@.subrange(i as int, i + needle@.len()) =~= needle@);
    true
}

/// The first position where `needle` occurs in `haystack` (a scan of its windows).
pub fn find_subsequence(haystack: &[u8], needle: &[u8]) -> (r: Option<usize>)
    requires
        needle@.len() > 0,
    ensures
        match first_window(haystack@, needle@) {
            Some(k) => r matches Some(i) && i == k,
            None => r is None,
        },
        r matches Some(i) ==> window_at(haystack@, needle@, i as int) && forall|j: int|
            0 <= j < i ==> !window_at(haystack@, needle@, j),
        r is None ==> forall|j: int| 0 <= j ==> !window_at(haystack@, needle@, j),
{
    proof {
        lemma_first_window_from(haystack@, needle@, 0);
    }
    let hl = haystack.len();
    if needle.len() > hl {
        return None;
    }
    let last = hl - needle.len();
    let mut i: usize = 0;
    while i <= last
        invariant
            hl == haystack@.len(),
            needle@.len() > 0,
            last + needle@.len() == haystack@.len(),
            i <= last + 1,
            first_window(haystack@, needle@) == first_window_from(haystack@, needle@, i as int),
        decreases last + 1 - i,
    {
        if window_matches(haystack, needle, i) {
            assert(first_window_from(haystack@, needle@, i as int) == Some(i as int));
            proof {
                lemma_first_window_from(haystack@, needle@, 0);
            }
            return Some(i);
        }
        i += 1;
    }
    None
}

// ---------------------------------------------------------------------------
// Content-Length
// ---------------------------------------------------------------------------

/// `s` holds ASCII digits only.
pub open spec fn all_digits(s: Seq<char>) -> bool {
    forall|i: int| 0 <= i < s.len() ==> '0' <= #[trigger] s[i] <= '9'
}

/// The value of a run of decimal digits.
pub open spec fn digits_value(s: Seq<char>) -> nat
    decreases s.len(),
{
    if s.len() == 0 {
        0
    } else {
        digits_value(s.drop_last()) * 10 + ((s.last() as u32) - ('0' as u32)) as nat
    }
}

/// `str::parse::<usize>`: an optional `+` and then one or more ASCII digits
/// whose value fits in a `usize`.
pub open spec fn parsed_usize(s: Seq<char>) -> Option<usize> {
    let d = if s.len() > 0 && s[0] == '+' { s.drop_first() } else { s };
    if d.len() > 0 && all_digits(d) && digits_value(d) <= usize::MAX {
        Some(digits_value(d) as usize)
    } else {
        None
    }
}

/// The line at the front of `s`: everything before the first `\n`.
pub open spec fn first_line_len(s: Seq<char>) -> int
    decreases s.len(),
{
    if s.len() == 0 {
        0
    } else if s[0] == '\n' {
        0
    } else {
        1 + first_line_len(s.drop_first())
    }
}

/// The line starts with `content-length:`, ASCII case ignored.
pub open spec fn is_length_line(line: Seq<char>) -> bool {
    let p = "content-length:"@;
    line.len() >= p.len() && forall|i: int| 0 <= i < p.len() ==> ascii_lower(#[trigger] line[i]) == p[i]
}

/// What follows the first `:` of a line.
pub open spec fn after_colon(line: Seq<char>) -> Seq<char>
    decreases line.len(),
{
    if line.len() == 0 {
        line
    } else if line[0] == ':' {
        line.drop_first()
    } else {
        after_colon(line.drop_first())
    }
}

/// The `Content-Length` of a request head: the first line (split at `\n`) that
/// starts with `content-length:` in any ASCII case decides, and its value after
/// the first colon, trimmed, must parse as a `usize`. A `\r` ending a line is
/// whitespace and falls to the trim.
pub open spec fn content_length_of(head: Seq<char>) -> Option<usize>
    decreases head.len(),
{
    let n = first_line_len(head);
    proof {
        lemma_first_line_len(head);
    }
    let line = head.subrange(0, n);
    if is_length_line(line) {
        parsed_usize(trim(after_colon(line)))
    } else if n < head.len() {
        content_length_of(head.subrange(n + 1, head.len() as int))
    } else {
        None
    }
}

pub proof fn lemma_first_line_len(s: Seq<char>)
    ensures
        0 <= first_line_len(s) <= s.len(),
        first_line_len(s) < s.len() ==> s[first_line_len(s)] == '\n',
        forall|j: int| 0 <= j < first_line_len(s) ==> s[j] != '\n',
    decreases s.len(),
{
    if s.len() > 0 && s[0] != '\n' {
        lemma_first_line_len(s.drop_first());
        assert forall|j: int| 0 <= j < first_line_len(s) implies s[j] != '\n' by {
            if j > 0 {
                assert(s[j] == s.drop_first()[j - 1]);
            }
        }
    }
}

proof fn lemma_first_line_len_at(s: Seq<char>, n: int)
    requires
        0 <= n <= s.len(),
        n < s.len() ==> s[n] == '\n',
        forall|j: int| 0 <= j < n ==> s[j] != '\n',
    ensures
        first_line_len(s) == n,
    decreases s.len(),
{
    if n > 0 {
        assert forall|j: int| 0 <= j < n - 1 implies s.drop_first()[j] != '\n' by {
            assert(s.drop_first()[j] == s[j + 1]);
        }
        lemma_first_line_len_at(s.drop_first(), n - 1);
    }
}

proof fn lemma_after_colon_suffix(line: Seq<char>, k: int)
    requires
        0 <= k <= line.len(),
        forall|j: int| 0 <= j < k ==> line[j] != ':',
    ensures
        after_colon(line) == after_colon(line.subrange(k, line.len() as int)),
    decreases k,
{
    if k > 0 {
        assert(line[0] != ':');
        assert(line.drop_first().subrange(k - 1, line.drop_first().len() as int) =~= line.subrange(k, line.len() as int));
        assert forall|j: int| 0 <= j < k - 1 implies line.drop_first()[j] != ':' by {
            assert(line.drop_first()[j] == line[j + 1]);
        }
        lemma_after_colon_suffix(line.drop_first(), k - 1);
        assert(after_colon(line) == after_colon(line.drop_first()));
    } else {
        assert(line.subrange(0, line.len() as int) =~= line);
    }
}

fn after_colon_chars(line: &[char]) -> (r: Vec<char>)
    ensures
        r@ == after_colon(line@),
{
    let n = line.len();
    let mut i: usize = 0;
    while i < n && line[i] != ':'
        invariant
            n == line@.len(),
            i <= n,
            forall|j: int| 0 <= j < i ==> line@[j] != ':',
        decreases n - i,
    {
        i += 1;
    }
    proof {
        lemma_after_colon_suffix(line@, i as int);
    }
    if i == n {
        assert(line@.subrange(n as int, n as int).len() == 0);
        Vec::new()
    } else {
        let t = crate::text::slice_range(line, i + 1, n);
        assert(line@.subrange(i as int, n as int).drop_first() =~= line@.subrange(i + 1, n as int));
        t
    }
}

fn length_line(line: &[char]) -> (b: bool)
    ensures
        b == is_length_line(line@),
{
    let p = chars_of("content-length:");
    proof {
        reveal_strlit("content-length:");
    }
    if line.len() < p.len() {
        return false;
    }
    let mut i: usize = 0;
    while i < p.len()
        invariant
            p@ == "content-length:"@,
            p@.len() <= line@.len(),
            i <= p@.len(),
            forall|j: int| 0 <= j < i ==> ascii_lower(#[trigger] line@[j]) == p@[j],
        decreases p@.len() - i,
    {
        if to_ascii_lower(line[i]) != p[i] {
            return false;
        }
        i += 1;
    }
    true
}

proof fn lemma_digits_value_prefix(s: Seq<char>, k: int)
    requires
        0 <= k <= s.len(),
    ensures
        digits_value(s.subrange(0, k)) <= digits_value(s),
    decreases s.len(),
{
    if k < s.len() {
        assert(s.drop_last().subrange(0, k) =~= s.subrange(0, k));
        lemma_digits_value_prefix(s.drop_last(), k);
    } else {
        assert(s.subrange(0, k) =~= s);
    }
}

fn digit_value(c: char) -> (d: usize)
    requires
        '0' <= c <= '9',
    ensures
        d == (c as u32) - ('0' as u32),
        d < 10,
{
    let u = c as u32;
    (u - 48) as usize
}

/// `str::parse::<usize>` on a character sequence.
pub fn parse_usize(s: &[char]) -> (r: Option<usize>)
    ensures
        r == parsed_usize(s@),
{
    let start: usize = if s.len() > 0 && s[0] == '+' { 1 } else { 0 };
    let ghost d = if s@.len() > 0 && s@[0] == '+' { s@.drop_first() } else { s@ };
    assert(d =~= s@.subrange(start as int, s@.len() as int));
    if start >= s.len() {
        return None;
    }
    let mut v: usize = 0;
    let mut i: usize = start;
    while i < s.len()
        invariant
            start <= i <= s@.len(),
            d == s@.subrange(start as int, s@.len() as int),
            d == (if s@.len() > 0 && s@[0] == '+' { s@.drop_first() } else { s@ }),
            forall|j: int| start <= j < i ==> '0' <= #[trigger] s@[j] <= '9',
            v == digits_value(s@.subrange(start as int, i as int)),
        decreases s@.len() - i,
    {
        let c = s[i];
        if !('0' <= c && c <= '9') {
            assert(!('0' <= d[i - start] <= '9'));
            return None;
        }
        let dv = digit_value(c);
        proof {
            let t = s@.subrange(start as int, i + 1);
            assert(t.drop_last() =~= s@.subrange(start as int, i as int));
            assert(t.last() == c);
        }
        match v.checked_mul(10) {
            Some(m) => match m.checked_add(dv) {
                Some(nv) => {
                    v = nv;
                },
                None => {
                    proof {
                        lemma_digits_value_prefix(d, i + 1 - start);
                        assert(d.subrange(0, i + 1 - start) =~= s@.subrange(start as int, i + 1));
                    }
                    return None;
                },
            },
            None => {
                proof {
                    lemma_digits_value_prefix(d, i + 1 - start);
                    assert(d.subrange(0, i + 1 - start) =~= s@.subrange(start as int, i + 1));
                }
                return None;
            },
        }
        i += 1;
    }
    assert(s@.subrange(start as int, s@.len() as int) =~= d);
    assert forall|j: int| 0 <= j < d.len() implies '0' <= #[trigger] d[j] <= '9' by {
        assert(d[j] == s@[start + j]);
    }
    Some(v)
}

/// The `Content-Length` of a request head, read as the server does (see `content_length_of`).
pub fn parse_content_length(headers: &str) -> (r: Option<usize>)
    ensures
        r == content_length_of(headers@),
{
    let c = chars_of(headers);
    let n = c.len();
    let mut pos: usize = 0;
    assert(c@.subrange(0, n as int) =~= c@);
    while pos <= n
        invariant
            n == c@.len(),
            c@ == headers@,
            pos <= n,
            content_length_of(c@) == content_length_of(c@.subrange(pos as int, n as int)),
        decreases n - pos,
    {
        let ghost rest = c@.subrange(pos as int, n as int);
        let mut end: usize = pos;
        while end < n && c[end] != '\n'
            invariant
                pos <= end <= n,
                n == c@.len(),
                forall|j: int| pos <= j < end ==> c@[j] != '\n',
            decreases n - end,
        {
            end += 1;
        }
        proof {
            assert forall|j: int| 0 <= j < end - pos implies rest[j] != '\n' by {
                assert(rest[j] == c@[pos + j]);
            }
            if end < n {
                assert(rest[end - pos] == c@[end as int]);
            }
            lemma_first_line_len_at(rest, end - pos);
            assert(rest.subrange(0, end - pos) =~= c@.subrange(pos as int, end as int));
        }
        let line = crate::text::slice_range(&c, pos, end);
        if length_line(&line) {
            let value = after_colon_chars(&line);
            let t = trim_chars(&value);
            return parse_usize(&t);
        }
        if end == n {
            return None;
        }
        proof {
            assert(rest.subrange(end - pos + 1, rest.len() as int) =~= c@.subrange(end + 1, n as int));
        }
        pos = end + 1;
    }
    None
}

// ---------------------------------------------------------------------------
// Framing
// ---------------------------------------------------------------------------

/// What `String::from_utf8_lossy` gives for a byte sequence: its UTF-8 decoding,
/// each invalid sequence replaced by U+FFFD.
pub uninterp spec fn utf8_lossy(bytes: Seq<u8>) -> Seq<char>;

/// ASCII bytes read as characters.
pub open spec fn ascii_chars(bytes: Seq<u8>) -> Seq<char> {
    bytes.map_values(|b: u8| b as char)
}

/// Decodes bytes with `String::from_utf8_lossy`. The result is named by
/// `utf8_lossy`; of the decoding only the ASCII case is stated: ASCII bytes
/// decode to the same characters.
#[verifier::external_body]
fn lossy_text(bytes: &[u8]) -> (r: String)
    ensures
        r@ == utf8_lossy(bytes@),
        (forall|i: int| 0 <= i < bytes@.len() ==> bytes@[i] < 128) ==> r@ == ascii_chars(bytes@),
{
    String::from_utf8_lossy(bytes).into_owned()
}

/// The blank line that ends a request head.
pub open spec fn head_end_marker() -> Seq<u8> {
    seq![13u8, 10u8, 13u8, 10u8]
}

/// What the connection does next with the bytes buffered so far.
#[derive(Debug, Clone, Copy, PartialEq, Eq, Structural)]
pub enum Frame {
    /// The head or the body is not complete yet: read more.
    Incomplete,
    /// The head has no valid `Content-Length`: answer 411 and close.
    LengthRequired,
    /// The declared body is larger than `MAX_BODY_SIZE`: answer 413 and close.
    TooLarge,
    /// A whole request: its body is `buffer[body_start..body_end]`, and the
    /// first `body_end` bytes are consumed once it is answered.
    Ready { body_start: usize, body_end: usize },
}

/// The framing rule: find the end of the head, read its `Content-Length`,
/// refuse a missing one or one above the limit, and wait for the whole body.
pub open spec fn frame_of(buffer: Seq<u8>) -> Frame {
    match first_window(buffer, head_end_marker()) {
        None => Frame::Incomplete,
        Some(h) => match content_length_of(utf8_lossy(buffer.subrange(0, h))) {
            None => Frame::LengthRequired,
            Some(n) => if n > MAX_BODY_SIZE {
                Frame::TooLarge
            } else if buffer.len() < h + 4 + n {
                Frame::Incomplete
            } else {
                Frame::Ready { body_start: (h + 4) as usize, body_end: (h + 4 + n) as usize }
            },
        },
    }
}

fn byte_prefix(s: &[u8], b: usize) -> (r: Vec<u8>)
    requires
        b <= s@.len(),
    ensures
        r@ == s@.subrange(0, b as int),
{
    let mut v: Vec<u8> = Vec::new();
    let mut i: usize = 0;
    while i < b
        invariant
            i <= b,
            b <= s@.len(),
            v@ == s@.subrange(0, i as int),
        decreases b - i,
    {
        v.push(s[i]);
        i += 1;
        assert(v@ =~= s@.subrange(0, i as int));
    }
    v
}

/// A request that is ready lies whole in the buffer right after the blank line
/// that ends its head, and its body is within the limit.
pub proof fn law_frame_ready(buffer: Seq<u8>)
    requires
        buffer.len() <= usize::MAX,
    ensures
        frame_of(buffer) matches Frame::Ready { body_start, body_end } ==> {
            &&& 4 <= body_start <= body_end <= buffer.len()
            &&& body_end - body_start <= MAX_BODY_SIZE
            &&& window_at(buffer, head_end_marker(), body_start - 4)
        },
{
    lemma_first_window_from(buffer, head_end_marker(), 0);
    match first_window(buffer, head_end_marker()) {
        Some(h) => {
            match content_length_of(utf8_lossy(buffer.subrange(0, h))) {
                Some(n) => {
                    if n <= MAX_BODY_SIZE && buffer.len() >= h + 4 + n {
                        assert(((h + 4) as usize) as int == h + 4);
                        assert(((h + 4 + n) as usize) as int == h + 4 + n);
                    }
                },
                None => {},
            }
        },
        None => {},
    }
}

/// Framing law: a request written as a head, the blank line and a body of the
/// length the head declares is read back whole, whatever bytes follow it. The
/// head holds no blank line and does not end in a line break, and its
/// `Content-Length` is read from its `String::from_utf8_lossy` decoding.
pub proof fn law_frame_request(head: Seq<u8>, body: Seq<u8>, rest: Seq<u8>)
    requires
        head.len() > 0,
        head.last() != 13u8,
        head.last() != 10u8,
        forall|j: int| !window_at(head, head_end_marker(), j),
        body.len() <= MAX_BODY_SIZE,
        content_length_of(utf8_lossy(head)) == Some(body.len() as usize),
        head.len() + 4 + body.len() + rest.len() <= usize::MAX,
    ensures
        frame_of(head + head_end_marker() + body + rest) == (Frame::Ready {
            body_start: (head.len() + 4) as usize,
            body_end: (head.len() + 4 + body.len()) as usize,
        }),
{
    let m = head_end_marker();
    let buf = head + m + body + rest;
    let h = head.len() as int;
    assert(buf.subrange(h, h + 4) =~= m);
    assert(window_at(buf, m, h));
    assert forall|j: int| 0 <= j < h implies !window_at(buf, m, j) by {
        if j + 4 <= h {
            assert(buf.subrange(j, j + 4) =~= head.subrange(j, j + 4));
            assert(!window_at(head, m, j));
        } else if window_at(buf, m, j) {
            let k = h - 1 - j;
            assert(0 <= k < 3);
            assert(buf.subrange(j, j + 4)[k] == buf[h - 1]);
            assert(buf[h - 1] == head.last());
            assert(m[k] == 13u8 || m[k] == 10u8);
        }
    }
    lemma_first_window_from(buf, m, 0);
    assert(first_window(buf, m) == Some(h)) by {
        match first_window(buf, m) {
            Some(k) => {
                if k < h {
                    assert(!window_at(buf, m, k));
                } else if k > h {
                    assert(!window_at(buf, m, h));
                }
            },
            None => {
                assert(!window_at(buf, m, h));
            },
        }
    }
    assert(buf.subrange(0, h) =~= head);
}

/// Decides what to do with the buffered bytes of a connection.
pub fn next_frame(buffer: &[u8]) -> (f: Frame)
    ensures
        f == frame_of(buffer@),
{
    let marker: [u8; 4] = [13u8, 10u8, 13u8, 10u8];
    assert(marker@ =~= head_end_marker());
    let bl = buffer.len();
    match find_subsequence(buffer, &marker) {
        None => Frame::Incomplete,
        Some(h) => {
            proof {
                lemma_first_window_from(buffer@, head_end_marker(), 0);
            }
            let head = byte_prefix(buffer, h);
            let text = lossy_text(&head);
            match parse_content_length(text.as_str()) {
                None => Frame::LengthRequired,
                Some(n) => {
                    if n > MAX_BODY_SIZE {
                        Frame::TooLarge
                    } else if bl - (h + 4) < n {
                        Frame::Incomplete
                    } else {
                        Frame::Ready { body_start: h + 4, body_end: h + 4 + n }
                    }
                },
            }
        },
    }
}

// ---------------------------------------------------------------------------
// Responses
// ---------------------------------------------------------------------------

/// The head of an HTTP response carrying a JSON body of `body_len` bytes.
pub open spec fn http_head(status: Seq<char>, body_len: nat, keep_alive: bool) -> Seq<char> {
    "HTTP/1.1 "@ + status + "\r\nContent-Type: application/json\r\nContent-Length: "@ + decimal(body_len)
        + "\r\nConnection: "@ + (if keep_alive { "keep-alive"@ } else { "close"@ }) + "\r\n\r\n"@
}

pub fn response_head(status: &str, body_len: usize, keep_alive: bool) -> (r: String)
    ensures
        r@ == http_head(status@, body_len as nat, keep_alive),
{
    let mut s = String::from_str("HTTP/1.1 ");
    s.append(status);
    s.append("\r\nContent-Type: application/json\r\nContent-Length: ");
    let d = decimal_chars(body_len);
    let ds = string_of(&d);
    s.append(ds.as_str());
    s.append("\r\nConnection: ");
    if keep_alive {
        s.append("keep-alive");
    } else {
        s.append("close");
    }
    s.append("\r\n\r\n");
    s
}

proof fn lemma_digit_value(d: nat)
    requires
        d < 10,
    ensures
        '0' <= digit(d) <= '9',
        (digit(d) as u32) - ('0' as u32) == d,
{
}

proof fn lemma_decimal_digits(n: nat)
    ensures
        decimal(n).len() > 0,
        all_digits(decimal(n)),
        digits_value(decimal(n)) == n,
        decimal(n)[0] != '+',
    decreases n,
{
    lemma_digit_value(n % 10);
    let s = decimal(n);
    if n >= 10 {
        lemma_decimal_digits(n / 10);
        assert(s.drop_last() =~= decimal(n / 10));
        assert(s[0] == decimal(n / 10)[0]);
        assert(s.last() == digit(n % 10));
        assert(n == (n / 10) * 10 + n % 10);
        assert(digits_value(s) == digits_value(s.drop_last()) * 10 + ((s.last() as u32) - ('0' as u32)) as nat);
        assert(digits_value(s.drop_last()) == n / 10);
    } else {
        assert(s.drop_last() =~= Seq::<char>::empty());
        assert(s.last() == digit(n));
        assert(digits_value(s) == digits_value(s.drop_last()) * 10 + ((s.last() as u32) - ('0' as u32)) as nat);
    }
}

/// The `Content-Length` that a response head declares reads back as the
/// body length it was written with.
pub proof fn law_content_length_roundtrip(n: usize)
    ensures
        parsed_usize(decimal(n as nat)) == Some(n),
{
    lemma_decimal_digits(n as nat);
}

/// A JSON-RPC error: its code and message.
#[derive(Debug, Clone)]
pub struct RpcError {
    pub code: i64,
    pub message: String,
}

/// Failures are `-32601` when their message says something was not found, `-32000` otherwise.
pub open spec fn failure_code(message: Seq<char>) -> i64 {
    if contains(message, "not found"@) {
        -32601i64
    } else {
        -32000i64
    }
}

/// The error answering a failed method call.
pub fn failure(message: String) -> (e: RpcError)
    ensures
        e.message@ == message@,
        e.code == failure_code(message@),
{
    let code: i64 = if str_contains(message.as_str(), "not found") { -32601 } else { -32000 };
    RpcError { code, message }
}

fn error_with(code: i64, message: &str) -> (e: RpcError)
    ensures
        e.code == code,
        e.message@ == message@,
{
    RpcError { code, message: String::from_str(message) }
}

/// The error answering a request head without a valid `Content-Length`.
pub fn length_required_error() -> (e: RpcError)
    ensures
        e.code == -32600,
        e.message@ == "Missing or invalid Content-Length"@,
{
    error_with(-32600, "Missing or invalid Content-Length")
}

/// The error answering a body above the limit.
pub fn too_large_error() -> (e: RpcError)
    ensures
        e.code == -32000,
        e.message@ == "Request too large"@,
{
    error_with(-32000, "Request too large")
}

/// The error answering a body that is not JSON.
pub fn parse_error(detail: &str) -> (e: RpcError)
    ensures
        e.code == -32700,
        e.message@ == "Parse error: "@ + detail@,
{
    let mut m = String::from_str("Parse error: ");
    m.append(detail);
    RpcError { code: -32700, message: m }
}

/// The error answering a goal whose execution failed.
pub fn goal_failure(detail: &str) -> (e: RpcError)
    ensures
        e.message@ == "Goal execution error: "@ + detail@,
        e.code == failure_code(e.message@),
{
    let mut m = String::from_str("Goal execution error: ");
    m.append(detail);
    failure(m)
}

// ---------------------------------------------------------------------------
// Requests
// ---------------------------------------------------------------------------

/// The parameters of a request, each as given when it has the expected JSON
/// type and `None` otherwise.
pub struct RpcParams {
    pub goal: Option<String>,
    pub url: Option<String>,
    pub prune: Option<bool>,
    pub max: Option<u64>,
    pub node_id: Option<String>,
    pub text: Option<String>,
    pub date: Option<String>,
    pub label: Option<String>,
    pub selector: Option<String>,
    /// `state` when it is a string (the element state waited for).
    pub state: Option<String>,
    /// `state` as JSON text, whatever its type (the page state probed).
    pub state_json: Option<String>,
    pub timeout_ms: Option<u64>,
    pub idle_ms: Option<u64>,
    pub script: Option<String>,
    pub assertion: Option<String>,
    /// `steps` when it is an array: each item decoded as a step, or the decoding error.
    pub steps: Option<Vec<Result<MacroStep, String>>>,
}

/// A JSON-RPC request: its id as JSON text, its method when it is a string, its parameters.
pub struct RpcRequest {
    pub id: Option<String>,
    pub method: Option<String>,
    pub params: RpcParams,
}

/// What a request asks of the supervisor.
pub enum RpcCommand {
    Ping,
    /// Run a goal, first opening `start_url` when one is given.
    ExecuteGoal { goal: String, start_url: Option<String> },
    Navigate { url: String },
    GetInteractiveElements { prune: bool, goal: String },
    GetActionMap { goal: String, max: u64 },
    ExecuteSteps { steps: Vec<MacroStep> },
    Click { node_id: String },
    Fill { node_id: String, text: String },
    PickDate { node_id: String, date: String },
    SelectDropdown { node_id: String, label: String },
    WaitForStable,
    WaitFor { selector: String, state: String, timeout_ms: u64 },
    WaitForNetworkIdle { timeout_ms: u64, idle_ms: u64 },
    Screenshot,
    BustOverlays,
    EvaluateJs { script: String },
    Probe { assertion: String, state: String },
}

pub open spec fn or_empty(o: Option<String>) -> Seq<char> {
    match o {
        Some(s) => s@,
        None => Seq::<char>::empty(),
    }
}

pub open spec fn or_u64(o: Option<u64>, d: u64) -> u64 {
    match o {
        Some(v) => v,
        None => d,
    }
}

/// The result is the failure with this message.
pub open spec fn fails_with(r: Result<RpcCommand, RpcError>, message: Seq<char>) -> bool {
    r matches Err(e) && e.message@ == message && e.code == failure_code(message)
}

fn take_or_empty(o: Option<String>) -> (r: String)
    ensures
        r@ == or_empty(o),
{
    match o {
        Some(s) => s,
        None => String::new(),
    }
}

fn take_or(o: Option<String>, d: &str) -> (r: String)
    ensures
        r@ == (match o {
            Some(s) => s@,
            None => d@,
        }),
{
    match o {
        Some(s) => s,
        None => String::from_str(d),
    }
}

fn fail(message: &str) -> (r: Result<RpcCommand, RpcError>)
    ensures
        fails_with(r, message@),
{
    Err(failure(String::from_str(message)))
}

/// The index of the first step that did not decode, from `i` on.
pub open spec fn first_bad_from(items: Seq<Result<MacroStep, String>>, i: int) -> Option<int>
    decreases items.len() - i,
{
    if i < 0 || i >= items.len() {
        None
    } else if items[i] is Err {
        Some(i)
    } else {
        first_bad_from(items, i + 1)
    }
}

/// The steps of an `execute_steps` call: all of them when every item decoded,
/// else the error `-32602` naming the first that did not.
pub fn collect_steps(items: Vec<Result<MacroStep, String>>) -> (r: Result<Vec<MacroStep>, RpcError>)
    ensures
        match first_bad_from(items@, 0) {
            None => r matches Ok(v) && v@.len() == items@.len() && forall|i: int|
                0 <= i < items@.len() ==> items@[i] == Ok::<MacroStep, String>(#[trigger] v@[i]),
            Some(k) => r matches Err(e) && items@[k] matches Err(m) && e.code == -32602 && e.message@
                == "Invalid step: "@ + m@,
        },
{
    let ghost orig = items@;
    let mut rest = items;
    let mut out: Vec<MacroStep> = Vec::new();
    while rest.len() > 0
        invariant
            orig == items@,
            out@.len() + rest@.len() == orig.len(),
            rest@ == orig.subrange(out@.len() as int, orig.len() as int),
            forall|j: int| 0 <= j < out@.len() ==> orig[j] == Ok::<MacroStep, String>(#[trigger] out@[j]),
            first_bad_from(orig, 0) == first_bad_from(orig, out@.len() as int),
        decreases rest@.len(),
    {
        let ghost k = out@.len() as int;
        let item = rest.remove(0);
        assert(item == orig[k]);
        match item {
            Ok(step) => {
                assert(first_bad_from(orig, k) == first_bad_from(orig, k + 1));
                out.push(step);
                assert(rest@ =~= orig.subrange(k + 1, orig.len() as int));
            },
            Err(m) => {
                assert(first_bad_from(orig, k) == Some(k));
                let mut msg = String::from_str("Invalid step: ");
                msg.append(m.as_str());
                return Err(RpcError { code: -32602, message: msg });
            },
        }
    }
    assert(first_bad_from(orig, out@.len() as int) is None);
    Ok(out)
}

/// Decodes a request into a command. A request without a method is invalid
/// (`-32600`); `ping` needs nothing; each other method takes its parameters
/// with their defaults (an absent string is empty, `max` 30, `state` "visible",
/// `timeout_ms` 5000 or 10000, `idle_ms` 500, the probed state `{}`) and fails
/// when one it needs is empty; an unknown method is not found (`-32601`).
pub fn decode_request(req: RpcRequest) -> (r: Result<RpcCommand, RpcError>)
    ensures
        req.method is None ==> (r matches Err(e) && e.code == -32600 && e.message@ == "Invalid Request: missing method"@),
        req.method matches Some(m) ==> decoded(m@, req.params, r),
{
    match req.method {
        None => Err(error_with(-32600, "Invalid Request: missing method")),
        Some(m) => decode_method(m, req.params),
    }
}

/// The methods served.
#[derive(Debug, Clone, Copy, PartialEq, Eq, Structural)]
pub enum Method {
    Ping,
    ExecuteGoal,
    Navigate,
    GetInteractiveElements,
    GetActionMap,
    ExecuteSteps,
    Click,
    Fill,
    PickDate,
    SelectDropdown,
    WaitForStable,
    WaitFor,
    WaitForNetworkIdle,
    Screenshot,
    BustOverlays,
    EvaluateJs,
    Probe,
    Unknown,
}

/// The method a name denotes (`select_option` is another name of `select_dropdown`).
pub open spec fn method_of(m: Seq<char>) -> Method {
    if m == "ping"@ {
        Method::Ping
    } else if m == "execute_goal"@ {
        Method::ExecuteGoal
    } else if m == "navigate"@ {
        Method::Navigate
    } else if m == "get_interactive_elements"@ {
        Method::GetInteractiveElements
    } else if m == "get_action_map"@ {
        Method::GetActionMap
    } else if m == "execute_steps"@ {
        Method::ExecuteSteps
    } else if m == "click"@ {
        Method::Click
    } else if m == "fill"@ {
        Method::Fill
    } else if m == "pick_date"@ {
        Method::PickDate
    } else if m == "select_dropdown"@ || m == "select_option"@ {
        Method::SelectDropdown
    } else if m == "wait_for_stable"@ {
        Method::WaitForStable
    } else if m == "wait_for"@ {
        Method::WaitFor
    } else if m == "wait_for_network_idle"@ {
        Method::WaitForNetworkIdle
    } else if m == "screenshot"@ {
        Method::Screenshot
    } else if m == "bust_overlays"@ {
        Method::BustOverlays
    } else if m == "evaluate_js"@ {
        Method::EvaluateJs
    } else if m == "probe"@ {
        Method::Probe
    } else {
        Method::Unknown
    }
}

pub fn method_named(m: &str) -> (r: Method)
    ensures
        r == method_of(m@),
{
    if str_eq(m, "ping") {
        Method::Ping
    } else if str_eq(m, "execute_goal") {
        Method::ExecuteGoal
    } else if str_eq(m, "navigate") {
        Method::Navigate
    } else if str_eq(m, "get_interactive_elements") {
        Method::GetInteractiveElements
    } else if str_eq(m, "get_action_map") {
        Method::GetActionMap
    } else if str_eq(m, "execute_steps") {
        Method::ExecuteSteps
    } else if str_eq(m, "click") {
        Method::Click
    } else if str_eq(m, "fill") {
        Method::Fill
    } else if str_eq(m, "pick_date") {
        Method::PickDate
    } else if str_eq(m, "select_dropdown") || str_eq(m, "select_option") {
        Method::SelectDropdown
    } else if str_eq(m, "wait_for_stable") {
        Method::WaitForStable
    } else if str_eq(m, "wait_for") {
        Method::WaitFor
    } else if str_eq(m, "wait_for_network_idle") {
        Method::WaitForNetworkIdle
    } else if str_eq(m, "screenshot") {
        Method::Screenshot
    } else if str_eq(m, "bust_overlays") {
        Method::BustOverlays
    } else if str_eq(m, "evaluate_js") {
        Method::EvaluateJs
    } else if str_eq(m, "probe") {
        Method::Probe
    } else {
        Method::Unknown
    }
}

/// The decoding rule of each method.
pub open spec fn decoded(m: Seq<char>, p: RpcParams, r: Result<RpcCommand, RpcError>) -> bool {
    match method_of(m) {
        Method::Ping => r matches Ok(RpcCommand::Ping),
        Method::ExecuteGoal => if or_empty(p.goal).len() == 0 {
            fails_with(r, "Missing 'goal' parameter in execute_goal"@)
        } else {
            r matches Ok(RpcCommand::ExecuteGoal { goal, start_url }) && goal@ == or_empty(p.goal) && opt_view(start_url)
                == opt_view(p.url)
        },
        Method::Navigate => if or_empty(p.url).len() == 0 {
            fails_with(r, "Missing 'url' parameter in navigate"@)
        } else {
            r matches Ok(RpcCommand::Navigate { url }) && url@ == or_empty(p.url)
        },
        Method::GetInteractiveElements => r matches Ok(RpcCommand::GetInteractiveElements { prune, goal }) && prune == (
        p.prune == Some(true)) && goal@ == or_empty(p.goal),
        Method::GetActionMap => r matches Ok(RpcCommand::GetActionMap { goal, max }) && goal@ == or_empty(p.goal) && max
            == or_u64(p.max, 30),
        Method::ExecuteSteps => match p.steps {
            None => r matches Err(e) && e.code == -32602 && e.message@ == "Missing 'steps' array in execute_steps"@,
            Some(items) => match first_bad_from(items@, 0) {
                None => r matches Ok(RpcCommand::ExecuteSteps { steps }) && steps@.len() == items@.len() && forall|i: int|
                    0 <= i < items@.len() ==> items@[i] == Ok::<MacroStep, String>(#[trigger] steps@[i]),
                Some(k) => r matches Err(e) && items@[k] matches Err(msg) && e.code == -32602 && e.message@
                    == "Invalid step: "@ + msg@,
            },
        },
        Method::Click => if or_empty(p.node_id).len() == 0 {
            fails_with(r, "Missing 'node_id' in click params"@)
        } else {
            r matches Ok(RpcCommand::Click { node_id }) && node_id@ == or_empty(p.node_id)
        },
        Method::Fill => if or_empty(p.node_id).len() == 0 {
            fails_with(r, "Missing 'node_id' in fill params"@)
        } else {
            r matches Ok(RpcCommand::Fill { node_id, text }) && node_id@ == or_empty(p.node_id) && text@ == or_empty(p.text)
        },
        Method::PickDate => if or_empty(p.node_id).len() == 0 || or_empty(p.date).len() == 0 {
            fails_with(r, "Missing 'node_id' or 'date' in pick_date params"@)
        } else {
            r matches Ok(RpcCommand::PickDate { node_id, date }) && node_id@ == or_empty(p.node_id) && date@ == or_empty(
                p.date,
            )
        },
        Method::SelectDropdown => if or_empty(p.node_id).len() == 0 || or_empty(p.label).len() == 0 {
            fails_with(r, "Missing 'node_id' or 'label' in select_dropdown params"@)
        } else {
            r matches Ok(RpcCommand::SelectDropdown { node_id, label }) && node_id@ == or_empty(p.node_id) && label@
                == or_empty(p.label)
        },
        Method::WaitForStable => r matches Ok(RpcCommand::WaitForStable),
        Method::WaitFor => if or_empty(p.selector).len() == 0 {
            fails_with(r, "Missing 'selector' in wait_for params"@)
        } else {
            r matches Ok(RpcCommand::WaitFor { selector, state, timeout_ms }) && selector@ == or_empty(p.selector)
                && state@ == (match p.state {
                Some(s) => s@,
                None => "visible"@,
            }) && timeout_ms == or_u64(p.timeout_ms, 5000)
        },
        Method::WaitForNetworkIdle => r matches Ok(RpcCommand::WaitForNetworkIdle { timeout_ms, idle_ms }) && timeout_ms
            == or_u64(p.timeout_ms, 10000) && idle_ms == or_u64(p.idle_ms, 500),
        Method::Screenshot => r matches Ok(RpcCommand::Screenshot),
        Method::BustOverlays => r matches Ok(RpcCommand::BustOverlays),
        Method::EvaluateJs => r matches Ok(RpcCommand::EvaluateJs { script }) && script@ == or_empty(p.script),
        Method::Probe => r matches Ok(RpcCommand::Probe { assertion, state }) && assertion@ == or_empty(p.assertion)
            && state@ == (match p.state_json {
            Some(s) => s@,
            None => "{}"@,
        }),
        Method::Unknown => fails_with(r, "Method '"@ + m + "' not found"@),
    }
}

fn decode_method(m: String, p: RpcParams) -> (r: Result<RpcCommand, RpcError>)
    ensures
        decoded(m@, p, r),
{
    match method_named(m.as_str()) {
        Method::Ping => Ok(RpcCommand::Ping),
        Method::ExecuteGoal => {
            let goal = take_or_empty(p.goal);
            if goal.unicode_len() == 0 {
                fail("Missing 'goal' parameter in execute_goal")
            } else {
                Ok(RpcCommand::ExecuteGoal { goal, start_url: p.url })
            }
        },
        Method::Navigate => {
            let url = take_or_empty(p.url);
            if url.unicode_len() == 0 {
                fail("Missing 'url' parameter in navigate")
            } else {
                Ok(RpcCommand::Navigate { url })
            }
        },
        Method::GetInteractiveElements => {
            let prune = match p.prune {
                Some(b) => b,
                None => false,
            };
            Ok(RpcCommand::GetInteractiveElements { prune, goal: take_or_empty(p.goal) })
        },
        Method::GetActionMap => {
            let max = match p.max {
                Some(v) => v,
                None => 30,
            };
            Ok(RpcCommand::GetActionMap { goal: take_or_empty(p.goal), max })
        },
        Method::ExecuteSteps => match p.steps {
            None => Err(error_with(-32602, "Missing 'steps' array in execute_steps")),
            Some(items) => match collect_steps(items) {
                Ok(steps) => Ok(RpcCommand::ExecuteSteps { steps }),
                Err(e) => Err(e),
            },
        },
        Method::Click => {
            let node_id = take_or_empty(p.node_id);
            if node_id.unicode_len() == 0 {
                fail("Missing 'node_id' in click params")
            } else {
                Ok(RpcCommand::Click { node_id })
            }
        },
        Method::Fill => {
            let node_id = take_or_empty(p.node_id);
            if node_id.unicode_len() == 0 {
                fail("Missing 'node_id' in fill params")
            } else {
                Ok(RpcCommand::Fill { node_id, text: take_or_empty(p.text) })
            }
        },
        Method::PickDate => {
            let node_id = take_or_empty(p.node_id);
            let date = take_or_empty(p.date);
            if node_id.unicode_len() == 0 || date.unicode_len() == 0 {
                fail("Missing 'node_id' or 'date' in pick_date params")
            } else {
                Ok(RpcCommand::PickDate { node_id, date })
            }
        },
        Method::SelectDropdown => {
            let node_id = take_or_empty(p.node_id);
            let label = take_or_empty(p.label);
            if node_id.unicode_len() == 0 || label.unicode_len() == 0 {
                fail("Missing 'node_id' or 'label' in select_dropdown params")
            } else {
                Ok(RpcCommand::SelectDropdown { node_id, label })
            }
        },
        Method::WaitForStable => Ok(RpcCommand::WaitForStable),
        Method::WaitFor => {
            let selector = take_or_empty(p.selector);
            if selector.unicode_len() == 0 {
                fail("Missing 'selector' in wait_for params")
            } else {
                let timeout_ms = match p.timeout_ms {
                    Some(v) => v,
                    None => 5000,
                };
                Ok(RpcCommand::WaitFor { selector, state: take_or(p.state, "visible"), timeout_ms })
            }
        },
        Method::WaitForNetworkIdle => {
            let timeout_ms = match p.timeout_ms {
                Some(v) => v,
                None => 10000,
            };
            let idle_ms = match p.idle_ms {
                Some(v) => v,
                None => 500,
            };
            Ok(RpcCommand::WaitForNetworkIdle { timeout_ms, idle_ms })
        },
        Method::Screenshot => Ok(RpcCommand::Screenshot),
        Method::BustOverlays => Ok(RpcCommand::BustOverlays),
        Method::EvaluateJs => Ok(RpcCommand::EvaluateJs { script: take_or_empty(p.script) }),
        Method::Probe => Ok(RpcCommand::Probe { assertion: take_or_empty(p.assertion), state: take_or(p.state_json, "{}") }),
        Method::Unknown => {
            let mut msg = String::from_str("Method '");
            msg.append(m.as_str());
            msg.append("' not found");
            Err(failure(msg))
        },
    }
}

/// The id a response carries: the request's, or JSON `null`.
pub fn response_id(req: &RpcRequest) -> (r: String)
    ensures
        r@ == (match req.id {
            Some(s) => s@,
            None => "null"@,
        }),
{
    match &req.id {
        Some(s) => s.clone(),
        None => String::from_str("null"),
    }
}

/// The candidates an action map lists: the first `max` of the pruned ones.
pub fn limit_candidates<'a>(pruned: Vec<&'a DOMElementNode>, max: u64) -> (r: Vec<&'a DOMElementNode>)
    ensures
        r@ == pruned@.take(if pruned@.len() < max { pruned@.len() as int } else { max as int }),
{
    let mut out: Vec<&'a DOMElementNode> = Vec::new();
    let mut i: usize = 0;
    while i < pruned.len() && (i as u64) < max
        invariant
            i <= pruned@.len(),
            i <= max,
            out@ == pruned@.take(i as int),
        decreases pruned@.len() - i,
    {
        out.push(pruned[i]);
        i += 1;
        assert(out@ =~= pruned@.take(i as int));
    }
    out
}

/// The instruction an action map gives its reader about what to do next.
pub fn action_map_directive() -> (r: String)
    ensures
        r@ == "MANDATORY: Plan ALL steps for the goal NOW using action_map + page_text above. Then call execute_steps ONCE with the full steps array. DO NOT call click/fill/probe individually — that wastes LLM round trips."@,
{
    String::from_str(
        "MANDATORY: Plan ALL steps for the goal NOW using action_map + page_text above. Then call execute_steps ONCE with the full steps array. DO NOT call click/fill/probe individually — that wastes LLM round trips.",
    )
}

} // verus!
