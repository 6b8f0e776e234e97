//! Hex, base64 and PEM: how bytes are written as text.

use crate::text::{chars_of, text_between};
use base64::engine::general_purpose::{STANDARD, URL_SAFE_NO_PAD};
use base64::Engine;
use vstd::prelude::*;
use vstd::string::*;
use vstd::utf8::*;

verus! {

// ---- Hex ----

/// The lower-case hex digit of a number below sixteen.
pub open spec fn hex_digit(n: int) -> char {
    if n < 10 {
        ('0' as u32 + n) as char
    } else {
        ('a' as u32 + n - 10) as char
    }
}

/// Is `c` a hex digit of either case?
pub open spec fn is_hex_digit(c: char) -> bool {
    '0' <= c <= '9' || 'a' <= c <= 'f' || 'A' <= c <= 'F'
}

/// The number that a hex digit stands for.
pub open spec fn hex_value(c: char) -> int {
    if '0' <= c <= '9' {
        c as u32 - '0' as u32
    } else if 'a' <= c <= 'f' {
        c as u32 - 'a' as u32 + 10
    } else {
        c as u32 - 'A' as u32 + 10
    }
}

/// Text made of pairs of hex digits.
pub open spec fn is_hex_text(s: Seq<char>) -> bool {
    s.len() % 2 == 0 && forall|i: int| 0 <= i < s.len() ==> is_hex_digit(#[trigger] s[i])
}

/// The bytes as hex digits, two for each byte.
pub open spec fn hex_text(bytes: Seq<u8>) -> Seq<char> {
    Seq::new(
        2 * bytes.len(),
        |i: int| hex_digit(if i % 2 == 0 { bytes[i / 2] as int / 16 } else { bytes[i / 2] as int % 16 }),
    )
}

/// The bytes that the pairs of hex digits stand for.
pub open spec fn hex_bytes(s: Seq<char>) -> Seq<u8> {
    Seq::new(s.len() / 2, |i: int| (16 * hex_value(s[2 * i]) + hex_value(s[2 * i + 1])) as u8)
}

/// Writing bytes in hex and reading them back gives the bytes.
pub proof fn hex_round_trip(bytes: Seq<u8>)
    ensures
        is_hex_text(hex_text(bytes)),
        hex_bytes(hex_text(bytes)) == bytes,
{
    let s = hex_text(bytes);
    assert forall|i: int| 0 <= i < bytes.len() implies hex_bytes(s)[i] == bytes[i] by {
        let hi = bytes[i] as int / 16;
        let lo = bytes[i] as int % 16;
        assert(s[2 * i] == hex_digit(hi));
        assert(s[2 * i + 1] == hex_digit(lo));
        assert(hex_value(hex_digit(hi)) == hi);
        assert(hex_value(hex_digit(lo)) == lo);
    }
    assert(hex_bytes(s) =~= bytes);
}

/// The upper-case hex digit of a number below sixteen.
pub open spec fn upper_hex_digit(n: int) -> char {
    if n < 10 {
        ('0' as u32 + n) as char
    } else {
        ('A' as u32 + n - 10) as char
    }
}

/// The number that stands at a place in the hex form of the bytes.
pub open spec fn nibble(bytes: Seq<u8>, i: int) -> int {
    if i % 2 == 0 {
        bytes[i / 2] as int / 16
    } else {
        bytes[i / 2] as int % 16
    }
}

/// The text is the bytes in hex, each digit in whatever case.
pub open spec fn spells(s: Seq<char>, bytes: Seq<u8>) -> bool {
    &&& s.len() == 2 * bytes.len()
    &&& forall|i: int|
        0 <= i < s.len() ==> (#[trigger] s[i]) == hex_digit(nibble(bytes, i)) || s[i]
            == upper_hex_digit(nibble(bytes, i))
}

/// Bytes that are written in hex, in whatever case, are read back as they were.
pub proof fn hex_is_read_in_either_case(s: Seq<char>, bytes: Seq<u8>)
    requires
        spells(s, bytes),
    ensures
        is_hex_text(s),
        hex_bytes(s) == bytes,
{
    assert forall|i: int| 0 <= i < s.len() implies is_hex_digit(#[trigger] s[i]) && hex_value(s[i])
        == nibble(bytes, i) by {
        assert(0 <= nibble(bytes, i) < 16);
    }
    assert forall|i: int| 0 <= i < bytes.len() implies hex_bytes(s)[i] == bytes[i] by {
        assert(hex_value(s[2 * i]) == nibble(bytes, 2 * i));
        assert(hex_value(s[2 * i + 1]) == nibble(bytes, 2 * i + 1));
    }
    assert(hex_bytes(s) =~= bytes);
}

/// The bytes in lower-case hex (`hex::encode`).
#[verifier::external_body]
pub(crate) fn hex_encode(bytes: &[u8]) -> (r: String)
    ensures
        r@ == hex_text(bytes@),
{
    hex::encode(bytes)
}

/// What the error of `hex::decode` says of a text that is not hex.
pub uninterp spec fn hex_fault(s: Seq<char>) -> Seq<char>;

/// The bytes of a hex text (`hex::decode`): there are some exactly if the text is made of pairs of
/// hex digits. The message of the error has a name only.
#[verifier::external_body]
pub(crate) fn hex_decode(s: &str) -> (r: Result<Vec<u8>, String>)
    ensures
        r is Ok <==> is_hex_text(s@),
        r matches Ok(b) ==> b@ == hex_bytes(s@),
        r matches Err(e) ==> e@ == hex_fault(s@),
{
    hex::decode(s).map_err(|e| e.to_string())
}

/// Is the text made of pairs of hex digits?
pub(crate) fn is_hex(s: &str) -> (r: bool)
    ensures
        r == is_hex_text(s@),
{
    let chars = chars_of(s);
    let mut i: usize = 0;
    while i < chars.len()
        invariant
            i <= chars.len(),
            chars@ == s@,
            forall|j: int| 0 <= j < i ==> is_hex_digit(#[trigger] s@[j]),
        decreases chars.len() - i,
    {
        let c = chars[i];
        if !(('0' <= c && c <= '9') || ('a' <= c && c <= 'f') || ('A' <= c && c <= 'F')) {
            proof {
                assert(!is_hex_digit(s@[i as int]));
            }
            return false;
        }
        i = i + 1;
    }
    chars.len() % 2 == 0
}

// ---- Base64 ----

/// What `base64`'s standard engine writes for the bytes.
pub uninterp spec fn base64_text(bytes: Seq<u8>) -> Seq<char>;

/// What `base64`'s standard engine reads from a text: the bytes, or what its error says.
pub uninterp spec fn base64_bytes(s: Seq<char>) -> Result<Seq<u8>, Seq<char>>;

/// What `base64`'s unpadded URL-safe engine reads from a text: the bytes, or what its error says.
pub uninterp spec fn base64_url_bytes(s: Seq<char>) -> Result<Seq<u8>, Seq<char>>;

/// A character of the standard base64 alphabet, or the padding.
pub open spec fn is_base64_char(c: char) -> bool {
    'A' <= c <= 'Z' || 'a' <= c <= 'z' || '0' <= c <= '9' || c == '+' || c == '/' || c == '='
}

/// The bytes, or what the error says.
pub open spec fn bytes_or_fault(r: Result<Vec<u8>, String>) -> Result<Seq<u8>, Seq<char>> {
    match r {
        Ok(b) => Ok(b@),
        Err(e) => Err(e@),
    }
}

/// The standard engine reads the bytes from the text.
pub open spec fn reads_as(s: Seq<char>, bytes: Seq<u8>) -> bool {
    base64_bytes(s) == Ok::<Seq<u8>, Seq<char>>(bytes)
}

/// The bytes in padded standard base64 (`base64::engine::general_purpose::STANDARD`'s `encode`).
/// The text has a name; the contract adds that it is made of the alphabet's characters and that
/// the same engine reads the bytes back from it.
#[verifier::external_body]
pub(crate) fn base64_encode(bytes: &[u8]) -> (r: String)
    ensures
        r@ == base64_text(bytes@),
        forall|i: int| 0 <= i < r@.len() ==> is_base64_char(#[trigger] r@[i]),
        reads_as(r@, bytes@),
{
    STANDARD.encode(bytes)
}

/// The bytes of a padded standard base64 text (`STANDARD`'s `decode`), or the message of its error.
#[verifier::external_body]
pub(crate) fn base64_decode(s: &str) -> (r: Result<Vec<u8>, String>)
    ensures
        bytes_or_fault(r) == base64_bytes(s@),
{
    STANDARD.decode(s).map_err(|e| e.to_string())
}

/// What the standard engine reads from the text, if it reads it, is the bytes.
pub open spec fn reads_if_at_all(s: Seq<char>, bytes: Seq<u8>) -> bool {
    base64_bytes(s) matches Ok(read) ==> read == bytes
}

/// The bytes of an unpadded URL-safe base64 text (`URL_SAFE_NO_PAD`'s `decode`), or the message of
/// its error. The contract adds that the two engines agree on what both of them read: such a text is
/// of the letters and digits that the two alphabets share, and has no padding.
#[verifier::external_body]
pub(crate) fn base64_url_decode(s: &str) -> (r: Result<Vec<u8>, String>)
    ensures
        bytes_or_fault(r) == base64_url_bytes(s@),
        r matches Ok(bytes) ==> reads_if_at_all(s@, bytes@),
{
    URL_SAFE_NO_PAD.decode(s).map_err(|e| e.to_string())
}

// ---- PEM ----

/// Where the first line of `s` ends: at its first newline, or at its end.
pub open spec fn line_end(s: Seq<char>) -> int
    decreases s.len(),
{
    if s.len() == 0 || s[0] == '\n' {
        0
    } else {
        1 + line_end(s.drop_first())
    }
}

/// The first line of `s`, without the newline or the carriage return and newline that end it.
pub open spec fn first_line(s: Seq<char>) -> Seq<char> {
    let n = line_end(s);
    if n < s.len() && n > 0 && s[n - 1] == '\r' {
        s.take(n - 1)
    } else {
        s.take(n)
    }
}

/// The lines of a PEM document that are no boundary (that do not begin with five hyphens), in a
/// row: the base64 text of what it holds.
pub open spec fn pem_body(s: Seq<char>) -> Seq<char>
    decreases s.len(),
    via pem_body_decreases
{
    if s.len() == 0 {
        Seq::empty()
    } else {
        let line = first_line(s);
        let n = line_end(s);
        let rest = if n < s.len() {
            s.skip(n + 1)
        } else {
            Seq::empty()
        };
        (if has_dashes(line) {
            Seq::empty()
        } else {
            line
        }) + pem_body(rest)
    }
}

#[via_fn]
proof fn pem_body_decreases(s: Seq<char>) {
    lemma_line_end(s);
}

/// Does the line begin with five hyphens?
pub open spec fn has_dashes(line: Seq<char>) -> bool {
    line.len() >= 5 && line[0] == '-' && line[1] == '-' && line[2] == '-' && line[3] == '-'
        && line[4] == '-'
}

/// The first line ends within the text, and holds no newline.
pub proof fn lemma_line_end(s: Seq<char>)
    ensures
        0 <= line_end(s) <= s.len(),
        line_end(s) < s.len() ==> s[line_end(s)] == '\n',
        forall|i: int| 0 <= i < line_end(s) ==> #[trigger] s[i] != '\n',
    decreases s.len(),
{
    if s.len() > 0 && s[0] != '\n' {
        let rest = s.drop_first();
        lemma_line_end(rest);
        assert forall|i: int| 0 <= i < line_end(s) implies #[trigger] s[i] != '\n' by {
            if i > 0 {
                assert(rest[i - 1] == s[i]);
            }
        }
    }
}

/// The place of the first newline is where the first line ends.
pub proof fn lemma_line_end_at(s: Seq<char>, n: int)
    requires
        0 <= n <= s.len(),
        n < s.len() ==> s[n] == '\n',
        forall|i: int| 0 <= i < n ==> #[trigger] s[i] != '\n',
    ensures
        line_end(s) == n,
{
    lemma_line_end(s);
}

/// The base64 text that a PEM document holds.
pub fn pem_base64(pem: &str) -> (r: String)
    ensures
        r@ == pem_body(pem@),
{
    let chars = chars_of(pem);
    let mut body = String::new();
    let mut start: usize = 0;
    proof {
        assert(pem@.skip(0) == pem@);
    }
    while start < chars.len()
        invariant
            start <= chars.len(),
            chars@ == pem@,
            body@ + pem_body(pem@.skip(start as int)) == pem_body(pem@),
        decreases chars.len() - start,
    {
        let ghost rest = pem@.skip(start as int);
        let mut end: usize = start;
        while end < chars.len() && chars[end] != '\n'
            invariant
                start <= end <= chars.len(),
                chars@ == pem@,
                rest == pem@.skip(start as int),
                forall|i: int| 0 <= i < end - start ==> #[trigger] rest[i] != '\n',
            decreases chars.len() - end,
        {
            end = end + 1;
        }
        proof {
            lemma_line_end_at(rest, end - start);
        }
        let mut stop: usize = end;
        if end < chars.len() && end > start && chars[end - 1] == '\r' {
            stop = end - 1;
        }
        proof {
            assert(first_line(rest) =~= pem@.subrange(start as int, stop as int));
        }
        let dashes = stop - start >= 5 && chars[start] == '-' && chars[start + 1] == '-'
            && chars[start + 2] == '-' && chars[start + 3] == '-' && chars[start + 4] == '-';
        let ghost before = body@;
        if !dashes {
            let line = text_between(&chars, start, stop);
            body.append(line.as_str());
        }
        let ghost kept: Seq<char> = if dashes {
            Seq::empty()
        } else {
            first_line(rest)
        };
        let next: usize = if end < chars.len() {
            end + 1
        } else {
            end
        };
        proof {
            assert(dashes == has_dashes(first_line(rest)));
            assert(body@ =~= before + kept);
            if end < chars.len() {
                assert(rest.skip(line_end(rest) + 1) =~= pem@.skip(next as int));
            } else {
                assert(pem@.skip(next as int) =~= Seq::empty());
            }
            assert(pem_body(rest) == kept + pem_body(pem@.skip(next as int)));
            assert(body@ + pem_body(pem@.skip(next as int)) =~= before + pem_body(rest));
        }
        start = next;
    }
    proof {
        assert(pem@.skip(start as int) =~= Seq::empty());
        assert(body@ + pem_body(pem@.skip(start as int)) =~= body@);
    }
    body
}

// ---- What holds of PEM ----

/// The text is one line: it holds no newline.
pub open spec fn is_line(s: Seq<char>) -> bool {
    forall|i: int| 0 <= i < s.len() ==> #[trigger] s[i] != '\n'
}

/// A line that begins with five hyphens holds nothing; any other line, which is the last, holds
/// itself.
pub proof fn pem_lines_hold_themselves(line: Seq<char>)
    requires
        is_line(line),
    ensures
        pem_body(line) == (if line.len() >= 5 && line.take(5) == seq!['-', '-', '-', '-', '-'] {
            Seq::empty()
        } else {
            line
        }),
{
    lemma_line_end_at(line, line.len() as int);
    if line.len() > 0 {
        assert(line.take(line.len() as int) =~= line);
        assert(pem_body(Seq::<char>::empty()) =~= Seq::empty());
        assert(first_line(line) =~= line);
        assert(has_dashes(line) <==> line.len() >= 5 && line.take(5) == seq![
            '-',
            '-',
            '-',
            '-',
            '-',
        ]) by {
            if line.len() >= 5 {
                let head = line.take(5);
                assert(head[0] == line[0] && head[1] == line[1] && head[2] == line[2] && head[3]
                    == line[3] && head[4] == line[4]);
                if has_dashes(line) {
                    assert(head =~= seq!['-', '-', '-', '-', '-']);
                }
            }
        }
        assert(pem_body(line) =~= (if has_dashes(line) {
            Seq::empty()
        } else {
            line
        }));
    }
}

/// A document holds what its first line holds, and then what the rest holds; and the newline may be
/// preceded by a carriage return, which is no part of the line.
pub proof fn pem_lines_add_up(line: Seq<char>, rest: Seq<char>)
    requires
        is_line(line),
        line.len() > 0 ==> line.last() != '\r',
    ensures
        pem_body(line + seq!['\n'] + rest) == pem_body(line) + pem_body(rest),
        pem_body(line + seq!['\r', '\n'] + rest) == pem_body(line) + pem_body(rest),
{
    let n = line.len() as int;
    let unix = line + seq!['\n'] + rest;
    let dos = line + seq!['\r', '\n'] + rest;
    pem_lines_hold_themselves(line);
    assert forall|i: int| 0 <= i < n implies #[trigger] unix[i] != '\n' by {
        assert(unix[i] == line[i]);
    }
    lemma_line_end_at(unix, n);
    assert(unix.take(n) =~= line);
    if n > 0 {
        assert(unix[n - 1] == line.last());
    }
    assert(first_line(unix) == line);
    assert(unix.skip(n + 1) =~= rest);
    assert forall|i: int| 0 <= i < n + 1 implies #[trigger] dos[i] != '\n' by {
        if i < n {
            assert(dos[i] == line[i]);
        }
    }
    lemma_line_end_at(dos, n + 1);
    assert(dos[n] == '\r');
    assert(dos.take(n) =~= line);
    assert(first_line(dos) == line);
    assert(dos.skip(n + 2) =~= rest);
    let kept: Seq<char> = if has_dashes(line) {
        Seq::empty()
    } else {
        line
    };
    assert(kept == pem_body(line)) by {
        if n == 0 {
            assert(kept =~= pem_body(line));
        } else if line.len() >= 5 {
            let head = line.take(5);
            assert(head[0] == line[0] && head[1] == line[1] && head[2] == line[2] && head[3]
                == line[3] && head[4] == line[4]);
            if has_dashes(line) {
                assert(head =~= seq!['-', '-', '-', '-', '-']);
            }
        }
    }
}

/// Writing bytes in hex gives two lower-case digits for each; no other bytes are written so.
pub proof fn hex_tells_bytes_apart(a: Seq<u8>, b: Seq<u8>)
    ensures
        hex_text(a).len() == 2 * a.len(),
        forall|i: int|
            0 <= i < hex_text(a).len() ==> '0' <= #[trigger] hex_text(a)[i] <= '9' || 'a'
                <= hex_text(a)[i] <= 'f',
        hex_text(a) == hex_text(b) ==> a == b,
{
    hex_round_trip(a);
    hex_round_trip(b);
    assert forall|i: int| 0 <= i < hex_text(a).len() implies '0' <= #[trigger] hex_text(a)[i] <= '9'
        || 'a' <= hex_text(a)[i] <= 'f' by {
        assert(0 <= nibble(a, i) < 16);
        assert(hex_text(a)[i] == hex_digit(nibble(a, i)));
    }
}

/// A text is read as hex exactly if it is the hex form of some bytes, in whatever case: of those that it
/// is read as.
pub proof fn hex_texts_spell_their_bytes(s: Seq<char>, bytes: Seq<u8>)
    ensures
        is_hex_text(s) ==> spells(s, hex_bytes(s)),
        spells(s, bytes) ==> is_hex_text(s) && hex_bytes(s) == bytes,
        s.len() % 2 == 1 ==> !is_hex_text(s),
{
    if spells(s, bytes) {
        hex_is_read_in_either_case(s, bytes);
    }
    if is_hex_text(s) {
        let read = hex_bytes(s);
        assert forall|i: int| 0 <= i < s.len() implies (#[trigger] s[i]) == hex_digit(
            nibble(read, i),
        ) || s[i] == upper_hex_digit(nibble(read, i)) by {
            let k = i / 2;
            assert(is_hex_digit(s[2 * k]) && is_hex_digit(s[2 * k + 1]));
            assert(0 <= hex_value(s[2 * k]) < 16 && 0 <= hex_value(s[2 * k + 1]) < 16);
            assert(read[k] as int == 16 * hex_value(s[2 * k]) + hex_value(s[2 * k + 1]));
            assert(i == 2 * k || i == 2 * k + 1);
            assert(nibble(read, i) == hex_value(s[i]));
        }
    }
}

} // verus!
