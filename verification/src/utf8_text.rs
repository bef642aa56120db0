//! Lines of text as char sequences whose byte offsets follow UTF-8.
//!
//! A line is modelled by its chars; a column is an offset into the line's
//! UTF-8 encoding, as `str::len` and `str::split_at` count.
use vstd::prelude::*;
use vstd::utf8::{decode_utf8, encode_utf8, is_char_boundary, valid_utf8};

verus! {

broadcast use vstd::utf8::group_utf8_lib;

/// The number of bytes of the UTF-8 encoding of `s`.
pub open spec fn byte_len(s: Seq<char>) -> nat {
    encode_utf8(s).len()
}

/// Byte offset `i` falls between two chars of `s` (or at either end).
pub open spec fn at_boundary(s: Seq<char>, i: int) -> bool {
    is_char_boundary(encode_utf8(s), i)
}

/// The chars encoded by the first `i` bytes of `s`.
pub open spec fn byte_prefix(s: Seq<char>, i: int) -> Seq<char> {
    decode_utf8(encode_utf8(s).subrange(0, i))
}

/// The chars encoded by the bytes of `s` from offset `i` on.
pub open spec fn byte_suffix(s: Seq<char>, i: int) -> Seq<char> {
    decode_utf8(encode_utf8(s).subrange(i, encode_utf8(s).len() as int))
}

/// Encoding distributes over concatenation.
pub proof fn lemma_encode_concat(a: Seq<char>, b: Seq<char>)
    ensures
        encode_utf8(a + b) == encode_utf8(a) + encode_utf8(b),
    decreases a.len(),
{
    if a.len() == 0 {
        assert(a + b =~= b);
    } else {
        lemma_encode_concat(a.drop_first(), b);
        assert((a + b).drop_first() =~= a.drop_first() + b);
        assert((a + b)[0] == a[0]);
    }
}

/// Splitting a line at a char boundary: the two halves put back together
/// give the line, and the first half is as many bytes long as the offset.
pub proof fn lemma_split_at_boundary(s: Seq<char>, i: int)
    requires
        at_boundary(s, i),
    ensures
        0 <= i <= byte_len(s),
        byte_prefix(s, i) + byte_suffix(s, i) == s,
        byte_len(byte_prefix(s, i)) == i,
        byte_len(byte_suffix(s, i)) == byte_len(s) - i,
        encode_utf8(byte_prefix(s, i)) == encode_utf8(s).subrange(0, i),
        encode_utf8(byte_suffix(s, i)) == encode_utf8(s).subrange(i, byte_len(s) as int),
{
    let bytes = encode_utf8(s);
    assert(valid_utf8(bytes));
    vstd::utf8::valid_utf8_split(bytes, i);
    vstd::utf8::decode_utf8_split(bytes, i);
    vstd::utf8::decode_utf8_encode_utf8(bytes.subrange(0, i));
    vstd::utf8::decode_utf8_encode_utf8(bytes.subrange(i, bytes.len() as int));
    vstd::utf8::encode_utf8_decode_utf8(s);
}

/// Splits `s` at byte offset `mid` into two owned strings.
pub fn split_line(s: &str, mid: usize) -> (res: (String, String))
    requires
        at_boundary(s@, mid as int),
    ensures
        res.0@ == byte_prefix(s@, mid as int),
        res.1@ == byte_suffix(s@, mid as int),
{
    proof {
        lemma_split_at_boundary(s@, mid as int);
    }
    let (a, b) = s.split_at(mid);
    proof {
        vstd::utf8::encode_utf8_decode_utf8(a@);
        vstd::utf8::encode_utf8_decode_utf8(b@);
    }
    (a.to_owned(), b.to_owned())
}

/// The number of bytes of the UTF-8 encoding of `s`, as `str::len`
/// counts them: the length of its byte slice.
pub fn str_byte_len(s: &str) -> (n: usize)
    ensures
        n == byte_len(s@),
{
    s.as_bytes().len()
}

} // verus!

verus! {

/// `l` without one trailing carriage return.
pub open spec fn strip_cr(l: Seq<char>) -> Seq<char> {
    if l.len() > 0 && l.last() == '\r' { l.drop_last() } else { l }
}

/// Reading `s` char by char: the lines finished so far and the line under way.
pub open spec fn scan_lines(s: Seq<char>) -> (Seq<Seq<char>>, Seq<char>)
    decreases s.len(),
{
    if s.len() == 0 {
        (Seq::empty(), Seq::empty())
    } else {
        let (done, cur) = scan_lines(s.drop_last());
        if s.last() == '\n' {
            (done.push(strip_cr(cur)), Seq::empty())
        } else {
            (done, cur.push(s.last()))
        }
    }
}

/// The lines of `s` as `str::lines` yields them: split after each `\n`,
/// each line without its `\n` or `\r\n`, and no empty line after a final
/// line ending.
pub open spec fn split_lines(s: Seq<char>) -> Seq<Seq<char>> {
    let (done, cur) = scan_lines(s);
    if cur.len() > 0 { done.push(cur) } else { done }
}

/// The chars of each string.
pub open spec fn views(v: Seq<String>) -> Seq<Seq<char>> {
    v.map_values(|l: String| l@)
}

/// The lines of `data`, as `str::lines` splits them.
pub fn text_lines(data: &str) -> (r: Vec<String>)
    ensures
        views(r@) == split_lines(data@),
{
    let mut lines: Vec<String> = Vec::new();
    let mut cur = String::new();
    let mut pending_cr = false;
    let ghost mut seen: Seq<char> = Seq::empty();
    for c in it: data.chars()
        invariant
            seen == data@.take(it.index() as int),
            it.seq() == data@,
            scan_lines(seen) == (views(lines@), if pending_cr { cur@.push('\r') } else { cur@ }),
            !pending_cr ==> (cur@.len() == 0 || cur@.last() != '\r'),
    {
        assert(data@.take(it.index() + 1).drop_last() =~= seen);
        proof { seen = data@.take(it.index() + 1); }
        assert(seen.last() == c);
        assert(seen.drop_last() =~= data@.take(it.index() as int));
        if c == '\n' {
            assert(strip_cr(if pending_cr { cur@.push('\r') } else { cur@ }) =~= cur@);
            let done = cur;
            cur = String::new();
            lines.push(done);
            pending_cr = false;
            assert(views(lines@) =~= scan_lines(seen).0);
        } else if c == '\r' {
            if pending_cr {
                crate::ext::std_items::string_push(&mut cur, '\r');
            }
            pending_cr = true;
        } else {
            if pending_cr {
                crate::ext::std_items::string_push(&mut cur, '\r');
            }
            crate::ext::std_items::string_push(&mut cur, c);
            pending_cr = false;
        }
    }
    assert(seen =~= data@);
    if pending_cr {
        crate::ext::std_items::string_push(&mut cur, '\r');
    }
    if cur.as_str().is_empty() {
        lines
    } else {
        lines.push(cur);
        assert(views(lines@) =~= split_lines(data@));
        lines
    }
}

} // verus!

verus! {

/// The byte offset where `a` ends inside `a + b` is a char boundary, and
/// splitting there gives `a` and `b` back.
pub proof fn lemma_boundary_at_concat(a: Seq<char>, b: Seq<char>)
    ensures
        at_boundary(a + b, byte_len(a) as int),
        byte_prefix(a + b, byte_len(a) as int) == a,
        byte_suffix(a + b, byte_len(a) as int) == b,
        byte_len(a + b) == byte_len(a) + byte_len(b),
    decreases a.len(),
{
    lemma_encode_concat(a, b);
    let s = a + b;
    let bytes = encode_utf8(s);
    assert(bytes.subrange(0, byte_len(a) as int) =~= encode_utf8(a));
    assert(bytes.subrange(byte_len(a) as int, bytes.len() as int) =~= encode_utf8(b));
    vstd::utf8::encode_utf8_decode_utf8(a);
    vstd::utf8::encode_utf8_decode_utf8(b);
    if a.len() == 0 {
        assert(is_char_boundary(bytes, 0));
    } else {
        let a1 = a.drop_first();
        lemma_boundary_at_concat(a1, b);
        assert(s.drop_first() =~= a1 + b);
        vstd::utf8::encode_utf8_first_scalar(s);
        vstd::utf8::encode_utf8_valid_utf8(s);
        let w = vstd::utf8::length_of_first_scalar(bytes);
        assert(bytes == vstd::utf8::encode_scalar(s[0] as u32) + encode_utf8(s.drop_first()));
        assert(vstd::utf8::pop_first_scalar(bytes) =~= encode_utf8(a1 + b));
        assert(encode_utf8(a) == vstd::utf8::encode_scalar(a[0] as u32) + encode_utf8(a1));
        assert(byte_len(a) == w + byte_len(a1));
        assert(w > 0) by {
            let c = s[0] as u32;
            vstd::utf8::char_is_scalar(s[0]);
        }
        assert(is_char_boundary(bytes, byte_len(a) as int));
    }
}

/// The ASCII char `c` is one byte long.
pub proof fn lemma_ascii_char_len(c: char)
    requires
        (c as u32) < 128,
    ensures
        byte_len(seq![c]) == 1,
{
    assert(vstd::utf8::is_ascii_chars(seq![c]));
    vstd::utf8::is_ascii_chars_encode_utf8(seq![c]);
}

/// The chars of `s`.
pub fn chars_of(s: &str) -> (r: Vec<char>)
    ensures
        r@ == s@,
{
    let mut out: Vec<char> = Vec::new();
    for c in it: s.chars()
        invariant
            it.seq() == s@,
            out@ == s@.take(it.index() as int),
    {
        out.push(c);
        assert(s@.take(it.index() + 1) =~= s@.take(it.index() as int).push(c));
    }
    assert(s@.take(s@.len() as int) =~= s@);
    out
}

/// Whether `a` and `b` hold the same chars.
pub fn str_eq(a: &str, b: &str) -> (r: bool)
    ensures
        r == (a@ == b@),
{
    let x = chars_of(a);
    let y = chars_of(b);
    if x.len() != y.len() {
        assert(a@.len() != b@.len());
        return false;
    }
    let mut i: usize = 0;
    while i < x.len()
        invariant
            x@ == a@,
            y@ == b@,
            x.len() == y.len(),
            i <= x.len(),
            forall|j: int| 0 <= j < i ==> x@[j] == y@[j],
        decreases x.len() - i,
    {
        if x[i] != y[i] {
            assert(a@[i as int] != b@[i as int]);
            return false;
        }
        i = i + 1;
    }
    assert(a@ =~= b@);
    true
}

} // verus!
