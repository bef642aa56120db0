//! The header of a language server message: `Content-Length: <n>\r\n`
//! followed by an empty line, then `n` bytes of body.
use vstd::prelude::*;
use crate::ext::std_items::string_push;
use crate::utf8_text::{byte_len, chars_of, str_byte_len};

verus! {

/// The chars with the Unicode `White_Space` property, which
/// `char::is_whitespace` tests for.
pub open spec fn white_space(c: char) -> bool {
    let u = c as u32;
    (0x09 <= u <= 0x0D) || u == 0x20 || u == 0x85 || u == 0xA0 || u == 0x1680 || (0x2000 <= u
        <= 0x200A) || u == 0x2028 || u == 0x2029 || u == 0x202F || u == 0x205F || u == 0x3000
}

/// `s` without its leading white space.
pub open spec fn trim_start(s: Seq<char>) -> Seq<char>
    decreases s.len(),
{
    if s.len() > 0 && white_space(s[0]) { trim_start(s.drop_first()) } else { s }
}

/// `s` without its trailing white space.
pub open spec fn trim_end(s: Seq<char>) -> Seq<char>
    decreases s.len(),
{
    if s.len() > 0 && white_space(s.last()) { trim_end(s.drop_last()) } else { s }
}

/// `s` without leading and trailing white space, as `str::trim` gives it.
pub open spec fn trimmed(s: Seq<char>) -> Seq<char> {
    trim_end(trim_start(s))
}

/// The index of the first `": "` in `s` at or after `i`.
pub open spec fn separator_from(s: Seq<char>, i: int) -> Option<int>
    decreases s.len() - i,
{
    if i < 0 || i + 1 >= s.len() {
        None
    } else if s[i] == ':' && s[i + 1] == ' ' {
        Some(i)
    } else {
        separator_from(s, i + 1)
    }
}

/// The name of a header line: the text before its first `": "`, or the
/// whole line.
pub open spec fn header_key(s: Seq<char>) -> Seq<char> {
    match separator_from(s, 0) {
        Some(i) => s.take(i),
        None => s,
    }
}

/// The value of a header line: the text after its first `": "`, trimmed;
/// empty when there is no `": "`.
pub open spec fn header_value(s: Seq<char>) -> Seq<char> {
    match separator_from(s, 0) {
        Some(i) => trimmed(s.skip(i + 2)),
        None => Seq::empty(),
    }
}

/// `c` is an ASCII decimal digit.
pub open spec fn is_digit(c: char) -> bool {
    '0' <= c <= '9'
}

/// The number the decimal digits `s` spell.
pub open spec fn digits_value(s: Seq<char>) -> nat
    decreases s.len(),
{
    if s.len() == 0 {
        0
    } else {
        digits_value(s.drop_last()) * 10 + ((s.last() as u32) - ('0' as u32)) as nat
    }
}

/// `s` without one leading `+`.
pub open spec fn unsigned_part(s: Seq<char>) -> Seq<char> {
    if s.len() > 0 && s[0] == '+' { s.drop_first() } else { s }
}

/// Every char of `s` is a decimal digit.
pub open spec fn all_digits(s: Seq<char>) -> bool {
    forall|i: int| 0 <= i < s.len() ==> is_digit(#[trigger] s[i])
}

/// What `usize::from_str` gives for `s`: an optional `+` then one or more
/// decimal digits whose value fits in `usize`; `None` for anything else.
pub open spec fn parsed_usize(s: Seq<char>) -> Option<usize> {
    let digits = unsigned_part(s);
    if digits.len() > 0 && all_digits(digits) && digits_value(digits) <= usize::MAX {
        Some(digits_value(digits) as usize)
    } else {
        None
    }
}

/// The decimal digits of `n`, without leading zeros.
pub open spec fn decimal(n: nat) -> Seq<char>
    decreases n,
{
    if n < 10 {
        seq![(('0' as u32) + n) as char]
    } else {
        decimal(n / 10).push((('0' as u32) + (n % 10)) as char)
    }
}

/// The outcome of reading one header line.
#[derive(Debug, PartialEq, Eq, Structural, Clone, Copy)]
pub enum HeaderStep {
    /// The empty line ended the headers; the content length read, if any.
    Done(Option<usize>),
    /// More headers follow; the content length read so far.
    Continue(Option<usize>),
    /// A `Content-Length` header whose value is not a number.
    Fail,
}

/// Reading the header line `line` with `content_length` read so far: a
/// line of at most two bytes ends the headers; a `Content-Length` header
/// sets the length, or fails when its value is not a number; other
/// headers are skipped.
pub open spec fn header_step_spec(line: Seq<char>, content_length: Option<usize>) -> HeaderStep {
    if byte_len(line) <= 2 {
        HeaderStep::Done(content_length)
    } else if header_key(line) == "Content-Length"@ {
        match parsed_usize(header_value(line)) {
            Some(v) => HeaderStep::Continue(Some(v)),
            None => HeaderStep::Fail,
        }
    } else {
        HeaderStep::Continue(content_length)
    }
}

/// The header that announces a body of `len` bytes.
pub open spec fn frame_header_spec(len: usize) -> Seq<char> {
    "Content-Length: "@ + decimal(len as nat) + "\r\n\r\n"@
}

/// Whether `c` has the `White_Space` property.
pub fn is_white_space(c: char) -> (b: bool)
    ensures
        b == white_space(c),
{
    let u = c as u32;
    (0x09 <= u && u <= 0x0D) || u == 0x20 || u == 0x85 || u == 0xA0 || u == 0x1680 || (0x2000 <= u
        && u <= 0x200A) || u == 0x2028 || u == 0x2029 || u == 0x202F || u == 0x205F || u == 0x3000
}

proof fn lemma_trim_start_is_skip(s: Seq<char>)
    ensures
        exists|k: int| 0 <= k <= s.len() && trim_start(s) == s.skip(k)
            && (forall|j: int| 0 <= j < k ==> white_space(#[trigger] s[j]))
            && (k < s.len() ==> !white_space(s[k])),
    decreases s.len(),
{
    if s.len() > 0 && white_space(s[0]) {
        lemma_trim_start_is_skip(s.drop_first());
        let k = choose|k: int| 0 <= k <= s.drop_first().len() && trim_start(s.drop_first())
            == s.drop_first().skip(k) && (forall|j: int| 0 <= j < k ==> white_space(
            #[trigger] s.drop_first()[j],
        )) && (k < s.drop_first().len() ==> !white_space(s.drop_first()[k]));
        assert(s.drop_first().skip(k) =~= s.skip(k + 1));
        assert forall|j: int| 0 <= j < k + 1 implies white_space(#[trigger] s[j]) by {
            if j > 0 {
                assert(s[j] == s.drop_first()[j - 1]);
            }
        }
    } else {
        assert(s.skip(0) =~= s);
    }
}

proof fn lemma_trim_end_is_take(s: Seq<char>)
    ensures
        exists|k: int| 0 <= k <= s.len() && trim_end(s) == s.take(k)
            && (forall|j: int| k <= j < s.len() ==> white_space(#[trigger] s[j]))
            && (k > 0 ==> !white_space(s[k - 1])),
    decreases s.len(),
{
    if s.len() > 0 && white_space(s.last()) {
        lemma_trim_end_is_take(s.drop_last());
        let k = choose|k: int| 0 <= k <= s.drop_last().len() && trim_end(s.drop_last())
            == s.drop_last().take(k) && (forall|j: int| k <= j < s.drop_last().len() ==> white_space(
            #[trigger] s.drop_last()[j],
        )) && (k > 0 ==> !white_space(s.drop_last()[k - 1]));
        assert(s.drop_last().take(k) =~= s.take(k));
        assert forall|j: int| k <= j < s.len() implies white_space(#[trigger] s[j]) by {
            if j < s.len() - 1 {
                assert(s[j] == s.drop_last()[j]);
            }
        }
    } else {
        assert(s.take(s.len() as int) =~= s);
    }
}

/// The chars `cs[lo..hi]` as a string.
fn string_of(cs: &Vec<char>, lo: usize, hi: usize) -> (r: String)
    requires
        lo <= hi <= cs.len(),
    ensures
        r@ == cs@.subrange(lo as int, hi as int),
{
    let mut out = String::new();
    let mut i = lo;
    while i < hi
        invariant
            lo <= i <= hi <= cs.len(),
            out@ == cs@.subrange(lo as int, i as int),
        decreases hi - i,
    {
        string_push(&mut out, cs[i]);
        assert(cs@.subrange(lo as int, i + 1) =~= cs@.subrange(lo as int, i as int).push(cs@[i as int]));
        i = i + 1;
    }
    out
}

/// `cs[lo..hi]` without leading and trailing white space, as a string.
fn trim_range(cs: &Vec<char>, lo: usize, hi: usize) -> (r: String)
    requires
        lo <= hi <= cs.len(),
    ensures
        r@ == trimmed(cs@.subrange(lo as int, hi as int)),
{
    let ghost s = cs@.subrange(lo as int, hi as int);
    let mut a = lo;
    while a < hi && is_white_space(cs[a])
        invariant
            lo <= a <= hi <= cs.len(),
            forall|j: int| lo <= j < a ==> white_space(#[trigger] cs@[j]),
        decreases hi - a,
    {
        a = a + 1;
    }
    let mut b = hi;
    while b > a && is_white_space(cs[b - 1])
        invariant
            a <= b <= hi <= cs.len(),
            forall|j: int| b <= j < hi ==> white_space(#[trigger] cs@[j]),
        decreases b - a,
    {
        b = b - 1;
    }
    proof {
        lemma_trim_start_is_skip(s);
        let k = choose|k: int| 0 <= k <= s.len() && trim_start(s) == s.skip(k) && (forall|j: int|
            0 <= j < k ==> white_space(#[trigger] s[j])) && (k < s.len() ==> !white_space(s[k]));
        if k < a - lo {
            assert(white_space(s[k]));
        }
        if k > a - lo {
            assert(white_space(s[a - lo]));
        }
        assert(k == a - lo);
        let t = trim_start(s);
        lemma_trim_end_is_take(t);
        let m = choose|m: int| 0 <= m <= t.len() && trim_end(t) == t.take(m) && (forall|j: int|
            m <= j < t.len() ==> white_space(#[trigger] t[j])) && (m > 0 ==> !white_space(t[m - 1]));
        assert(forall|j: int| 0 <= j < t.len() ==> t[j] == cs@[a + j]);
        if m < b - a {
            assert(white_space(t[b - a - 1]));
        }
        if m > b - a {
            assert(white_space(t[m - 1]));
        }
        assert(m == b - a);
        assert(t.take(m) =~= cs@.subrange(a as int, b as int));
    }
    string_of(cs, a, b)
}

/// The decimal value of `s`, as `usize::from_str` reads it.
pub fn parse_usize(s: &Vec<char>) -> (r: Option<usize>)
    ensures
        r == parsed_usize(s@),
{
    let start: usize = if s.len() > 0 && s[0] == '+' { 1 } else { 0 };
    let ghost digits = unsigned_part(s@);
    assert(digits =~= s@.skip(start as int));
    if start == s.len() {
        return None;
    }
    let mut value: usize = 0;
    let mut i = start;
    while i < s.len()
        invariant
            start <= i <= s.len(),
            start < s.len(),
            digits == s@.skip(start as int),
            digits == unsigned_part(s@),
            forall|j: int| start <= j < i ==> is_digit(#[trigger] s@[j]),
            value == digits_value(s@.subrange(start as int, i as int)),
        decreases s.len() - i,
    {
        let c = s[i];
        if !('0' <= c && c <= '9') {
            assert(digits[i - start] == c);
            assert(!is_digit(digits[i - start]));
            assert(!all_digits(digits));
            assert(unsigned_part(s@) == digits);
            assert(parsed_usize(s@) is None);
            return None;
        }
        let d = (c as u32 - '0' as u32) as usize;
        assert(s@.subrange(start as int, i + 1).drop_last() =~= s@.subrange(start as int, i as int));
        assert(digits.take(i + 1 - start) =~= s@.subrange(start as int, i + 1));
        assert(digits_value(s@.subrange(start as int, i + 1)) == value * 10 + d);
        match value.checked_mul(10) {
            Some(v10) => match v10.checked_add(d) {
                Some(v) => {
                    value = v;
                },
                None => {
                    proof { lemma_overflow_rejected(digits, i + 1 - start); }
                    assert(digits.take(i + 1 - start) =~= s@.subrange(start as int, i + 1));
                    return None;
                },
            },
            None => {
                proof { lemma_overflow_rejected(digits, i + 1 - start); }
                assert(digits.take(i + 1 - start) =~= s@.subrange(start as int, i + 1));
                return None;
            },
        }
        i = i + 1;
    }
    assert(s@.subrange(start as int, s.len() as int) =~= digits);
    assert(all_digits(digits));
    Some(value)
}

/// When the first `k` digits already exceed `usize::MAX`, the whole is not
/// a `usize`: either a later char is no digit or the value is larger.
proof fn lemma_overflow_rejected(s: Seq<char>, k: int)
    requires
        0 <= k <= s.len(),
        digits_value(s.take(k)) > usize::MAX,
    ensures
        !(all_digits(s) && digits_value(s) <= usize::MAX),
{
    if all_digits(s) {
        lemma_digits_value_grows(s, k);
    }
}

/// The value of digits only grows as digits are added.
proof fn lemma_digits_value_grows(s: Seq<char>, k: int)
    requires
        0 <= k <= s.len(),
        forall|i: int| 0 <= i < s.len() ==> is_digit(#[trigger] s[i]),
    ensures
        digits_value(s.take(k)) <= digits_value(s),
    decreases s.len(),
{
    if k < s.len() {
        assert(s.drop_last().take(k) =~= s.take(k));
        assert forall|i: int| 0 <= i < s.drop_last().len() implies is_digit(#[trigger] s.drop_last()[i]) by {
            assert(s.drop_last()[i] == s[i]);
        }
        lemma_digits_value_grows(s.drop_last(), k);
    } else {
        assert(s.take(k) =~= s);
    }
}


/// The first `": "` at or after `i`: at `k` when one sits there and none
/// earlier.
proof fn lemma_separator_at(s: Seq<char>, i: int, k: int)
    requires
        0 <= i <= k,
        k + 1 < s.len(),
        s[k] == ':' && s[k + 1] == ' ',
        forall|j: int| i <= j < k ==> !(#[trigger] s[j] == ':' && s[j + 1] == ' '),
    ensures
        separator_from(s, i) == Some(k),
    decreases k - i,
{
    if i < k {
        lemma_separator_at(s, i + 1, k);
    }
}

/// Where the first `": "` of `cs` is.
fn find_separator(cs: &Vec<char>) -> (r: Option<usize>)
    ensures
        r matches Some(i) ==> separator_from(cs@, 0) == Some(i as int) && i + 1 < cs.len(),
        r is None ==> separator_from(cs@, 0) is None,
{
    let mut i: usize = 0;
    while cs.len() > 1 && i < cs.len() - 1
        invariant
            i <= cs.len(),
            separator_from(cs@, 0) == separator_from(cs@, i as int),
        decreases cs.len() - i,
    {
        if cs[i] == ':' && cs[i + 1] == ' ' {
            return Some(i);
        }
        i = i + 1;
    }
    None
}

/// Whether `cs[..end]` spells `Content-Length`.
fn is_content_length(cs: &Vec<char>, end: usize) -> (b: bool)
    requires
        end <= cs.len(),
    ensures
        b == (cs@.take(end as int) == "Content-Length"@),
{
    let name = chars_of("Content-Length");
    assert(name@ == "Content-Length"@);
    if name.len() != end {
        assert(cs@.take(end as int).len() != name@.len());
        return false;
    }
    let mut i: usize = 0;
    while i < end
        invariant
            i <= end <= cs.len(),
            name.len() == end,
            name@ == "Content-Length"@,
            forall|j: int| 0 <= j < i ==> cs@[j] == name@[j],
        decreases end - i,
    {
        if cs[i] != name[i] {
            assert(cs@.take(end as int)[i as int] != name@[i as int]);
            assert(cs@.take(end as int) != name@);
            return false;
        }
        i = i + 1;
    }
    assert(cs@.take(end as int) =~= name@);
    true
}

/// Reads the header line `line` (as `read_line` gives it, with its line
/// ending) when `content_length` has been read so far.
pub fn header_step(line: &str, content_length: Option<usize>) -> (r: HeaderStep)
    ensures
        r == header_step_spec(line@, content_length),
{
    if str_byte_len(line) <= 2 {
        return HeaderStep::Done(content_length);
    }
    let cs = chars_of(line);
    let sep = find_separator(&cs);
    let key_end = match sep {
        Some(i) => i,
        None => cs.len(),
    };
    proof {
        if sep is None {
            assert(cs@.take(cs@.len() as int) =~= cs@);
        }
    }
    if !is_content_length(&cs, key_end) {
        return HeaderStep::Continue(content_length);
    }
    let value = match sep {
        Some(i) => {
            assert(cs@.subrange(i + 2, cs@.len() as int) =~= cs@.skip(i + 2));
            trim_range(&cs, i + 2, cs.len())
        },
        None => String::new(),
    };
    let digits = chars_of(value.as_str());
    match parse_usize(&digits) {
        Some(v) => HeaderStep::Continue(Some(v)),
        None => HeaderStep::Fail,
    }
}

/// The decimal digits of `n`.
pub fn decimal_string(n: usize) -> (r: String)
    ensures
        r@ == decimal(n as nat),
    decreases n,
{
    if n < 10 {
        let mut s = String::new();
        string_push(&mut s, (48u8 + (n as u8)) as char);
        assert(s@ =~= decimal(n as nat));
        s
    } else {
        let mut s = decimal_string(n / 10);
        string_push(&mut s, (48u8 + ((n % 10) as u8)) as char);
        s
    }
}

/// The header that announces a body of `len` bytes:
/// `Content-Length: <len>\r\n\r\n`.
pub fn frame_header(len: usize) -> (r: String)
    ensures
        r@ == frame_header_spec(len),
{
    let mut out = String::from_str("Content-Length: ");
    let digits = decimal_string(len);
    out.append(digits.as_str());
    out.append("\r\n\r\n");
    out
}

proof fn lemma_decimal_digits(n: nat)
    ensures
        all_digits(decimal(n)),
        decimal(n).len() > 0,
        digits_value(decimal(n)) == n,
    decreases n,
{
    if n >= 10 {
        lemma_decimal_digits(n / 10);
        let d = decimal(n);
        let m = n % 10;
        assert(((('0' as u32) + m) as char) as u32 == ('0' as u32) + m);
        assert(n == (n / 10) * 10 + m);
        assert(d.last() == (('0' as u32) + m) as char);
        assert(digits_value(d) == digits_value(d.drop_last()) * 10 + ((d.last() as u32) - ('0' as u32)) as nat);
        assert(d.drop_last() =~= decimal(n / 10));
        assert forall|i: int| 0 <= i < d.len() implies is_digit(#[trigger] d[i]) by {
            if i < d.len() - 1 {
                assert(d[i] == decimal(n / 10)[i]);
            }
        }
    } else {
        let d = decimal(n);
        assert(d.drop_last() =~= Seq::<char>::empty());
        assert(((('0' as u32) + n) as char) as u32 == ('0' as u32) + n);
        assert(digits_value(d) == digits_value(d.drop_last()) * 10 + ((d.last() as u32) - ('0' as u32)) as nat);
    }
}

proof fn lemma_ascii_byte_len(s: Seq<char>)
    requires
        vstd::utf8::is_ascii_chars(s),
    ensures
        byte_len(s) == s.len(),
{
    vstd::utf8::is_ascii_chars_encode_utf8(s);
}

/// The header `frame_header` writes reads back: its first line announces
/// the length, and the empty line after it ends the headers with that
/// length.
pub proof fn law_framed_length_reads_back(len: usize)
    ensures
        frame_header_spec(len) == "Content-Length: "@ + decimal(len as nat) + "\r\n"@ + "\r\n"@,
        header_step_spec("Content-Length: "@ + decimal(len as nat) + "\r\n"@, None)
            == HeaderStep::Continue(Some(len)),
        header_step_spec("\r\n"@, Some(len)) == HeaderStep::Done(Some(len)),
{
    reveal_strlit("Content-Length: ");
    reveal_strlit("Content-Length");
    reveal_strlit("\r\n");
    reveal_strlit("\r\n\r\n");
    let d = decimal(len as nat);
    lemma_decimal_digits(len as nat);
    assert("\r\n\r\n"@ =~= "\r\n"@ + "\r\n"@);
    let line = "Content-Length: "@ + d + "\r\n"@;
    assert forall|i: int| 0 <= i < line.len() implies '\0' <= #[trigger] line[i] <= '\u{7f}' by {
        if 16 <= i < 16 + d.len() {
            assert(line[i] == d[i - 16]);
            assert(is_digit(d[i - 16]));
        }
    }
    lemma_ascii_byte_len(line);
    assert forall|i: int| 0 <= i < "\r\n"@.len() implies '\0' <= #[trigger] "\r\n"@[i] <= '\u{7f}' by {}
    lemma_ascii_byte_len("\r\n"@);
    assert forall|j: int| 0 <= j < 14 implies !(#[trigger] line[j] == ':' && line[j + 1] == ' ') by {}
    lemma_separator_at(line, 0, 14);
    assert(header_key(line) =~= "Content-Length"@);
    let rest = line.skip(16);
    assert(rest =~= d + "\r\n"@);
    assert(trim_start(rest) == rest) by {
        assert(rest[0] == d[0]);
        assert(is_digit(d[0]));
    }
    assert(trim_end(rest) == d) by {
        assert(rest.drop_last() =~= d.push('\r'));
        assert(d.push('\r').drop_last() =~= d);
        assert(is_digit(d.last()));
        reveal_with_fuel(trim_end, 3);
    }
    assert(unsigned_part(d) == d) by {
        assert(is_digit(d[0]));
    }
}

} // verus!
