//! `std::string` (libc++ `basic_string<char>`) formatter.
//!
//! libc++ stores the string as a union of two representations sharing the
//! same 12 bytes on wasm32.  The high bit of the last byte is `__is_long_`,
//! which selects the live one: the short form keeps the characters inline
//! and its length in the low 7 bits of that byte; the long form holds a
//! pointer, a length and a capacity.
use vstd::prelude::*;

use crate::debug::formatters::ChildCounts;
use crate::text::{concat, decimal, u64_text};

verus! {

/// High bit of `__short`'s size byte: set iff the string is in `__long` mode.
pub const IS_LONG_BIT: u8 = 0x80;

/// Which representation a `std::string` uses, read from its size byte.
#[derive(Clone, Copy, PartialEq, Eq, Structural, Debug)]
pub enum StringRep {
    /// Characters inline, `len` of them.
    Short { len: usize },
    /// Characters on the heap; pointer and length are read from `__l`.
    Long,
}

/// The `std::string` formatter.
pub struct StdStringFormatter;

/// The text of the error for a short length larger than the inline buffer.
pub open spec fn short_size_error(len: nat, cap: nat) -> Seq<char> {
    "std::string short size "@ + decimal(len) + " exceeds inline buffer "@ + decimal(cap)
}

impl StdStringFormatter {
    /// Decodes the size byte (byte 11 of `__rep_`): a short string with
    /// its length in the low 7 bits, or a long one.  A short length larger
    /// than the inline buffer's capacity, when that is known, means the
    /// string is uninitialized, and is refused.
    pub fn read(header: u8, inline_cap: Option<u64>) -> (r: Result<StringRep, String>)
        ensures
            header >= 0x80 ==> r == Ok::<StringRep, String>(StringRep::Long),
            header < 0x80 ==> match inline_cap {
                Some(cap) if header as usize > cap as usize => r matches Err(e) && e@
                    == short_size_error(header as nat, cap as nat),
                _ => r == Ok::<StringRep, String>(StringRep::Short { len: header as usize }),
            },
    {
        assert((header & IS_LONG_BIT == 0) == (header < 0x80)) by (bit_vector);
        assert(header < 0x80 ==> header & !IS_LONG_BIT == header) by (bit_vector);
        if header & IS_LONG_BIT == 0 {
            let len = (header & !IS_LONG_BIT) as usize;
            match inline_cap {
                Some(cap) => {
                    if len > cap as usize {
                        let a = concat("std::string short size ", u64_text(len as u64).as_str());
                        let b = concat(a.as_str(), " exceeds inline buffer ");
                        let c = concat(b.as_str(), u64_text(cap).as_str());
                        return Err(c);
                    }
                },
                None => {},
            }
            Ok(StringRep::Short { len })
        } else {
            Ok(StringRep::Long)
        }
    }

    /// A string has no children.
    pub fn num_children() -> (r: ChildCounts)
        ensures
            r.indexed == 0 && r.named == 0,
    {
        ChildCounts::none()
    }
}

/// The lowercase hexadecimal digit of `d` (`0` to `15`).
pub open spec fn hex_digit(d: int) -> u8 {
    if d < 10 {
        (0x30 + d) as u8
    } else {
        (0x61 + d - 10) as u8
    }
}

/// How one byte is shown inside the quotes: `\"`, `\\`, `\n`, `\r`, `\t`,
/// printable ASCII as itself, and anything else as `\x` and two lowercase
/// hex digits.
pub open spec fn escape_byte(b: u8) -> Seq<u8> {
    if b == 0x22 {
        seq![0x5cu8, 0x22u8]
    } else if b == 0x5c {
        seq![0x5cu8, 0x5cu8]
    } else if b == 0x0a {
        seq![0x5cu8, 0x6eu8]
    } else if b == 0x0d {
        seq![0x5cu8, 0x72u8]
    } else if b == 0x09 {
        seq![0x5cu8, 0x74u8]
    } else if 0x20 <= b <= 0x7e {
        seq![b]
    } else {
        seq![0x5cu8, 0x78u8, hex_digit(b as int / 16), hex_digit(b as int % 16)]
    }
}

/// The bytes escaped one after another.
pub open spec fn escaped(bytes: Seq<u8>) -> Seq<u8>
    decreases bytes.len(),
{
    if bytes.len() == 0 {
        Seq::empty()
    } else {
        escaped(bytes.drop_last()) + escape_byte(bytes.last())
    }
}

/// The bytes escaped and put between double quotes.
pub open spec fn quoted(bytes: Seq<u8>) -> Seq<u8> {
    seq![0x22u8] + escaped(bytes) + seq![0x22u8]
}

/// The characters of ASCII bytes.
pub open spec fn ascii_text(bytes: Seq<u8>) -> Seq<char> {
    Seq::new(bytes.len(), |i: int| bytes[i] as char)
}

/// Every byte is ASCII.
pub open spec fn all_ascii(bytes: Seq<u8>) -> bool {
    forall|i: int| 0 <= i < bytes.len() ==> #[trigger] bytes[i] < 0x80
}

proof fn lemma_escape_byte_ascii(b: u8)
    ensures
        all_ascii(escape_byte(b)),
        escape_byte(b).len() >= 1,
{
}

proof fn lemma_escaped_append(a: Seq<u8>, b: Seq<u8>)
    ensures
        escaped(a + b) == escaped(a) + escaped(b),
    decreases b.len(),
{
    if b.len() == 0 {
        assert(a + b =~= a);
        assert(escaped(a) + Seq::<u8>::empty() =~= escaped(a));
    } else {
        lemma_escaped_append(a, b.drop_last());
        assert((a + b).drop_last() =~= a + b.drop_last());
        assert((a + b).last() == b.last());
        assert(escaped(a) + escaped(b) =~= escaped(a) + escaped(b.drop_last()) + escape_byte(
            b.last(),
        ));
    }
}

proof fn lemma_escaped_front(s: Seq<u8>)
    requires
        s.len() > 0,
    ensures
        escaped(s) == escape_byte(s[0]) + escaped(s.drop_first()),
{
    assert(s =~= seq![s[0]] + s.drop_first());
    lemma_escaped_append(seq![s[0]], s.drop_first());
    assert(seq![s[0]].drop_last() =~= Seq::<u8>::empty());
    assert(seq![s[0]].last() == s[0]);
    assert(escaped(Seq::<u8>::empty()) == Seq::<u8>::empty());
    assert(escaped(seq![s[0]]) =~= Seq::<u8>::empty() + escape_byte(s[0]));
    assert(escaped(seq![s[0]]) =~= escape_byte(s[0]));
}

proof fn lemma_hex_digit(d: int)
    requires
        0 <= d < 16,
    ensures
        hex_digit(d) != 0x22 && hex_digit(d) != 0x5c,
        (0x30 <= hex_digit(d) <= 0x39 && hex_digit(d) - 0x30 == d) || (0x61 <= hex_digit(d)
            <= 0x66 && hex_digit(d) - 0x61 + 10 == d),
{
}

/// Two bytes whose escapes are one the prefix of the other's escaped
/// continuation are the same byte: an escape is read off unambiguously
/// from its first characters.
proof fn lemma_escape_byte_unique(x: u8, y: u8, rx: Seq<u8>, ry: Seq<u8>)
    requires
        escape_byte(x) + rx == escape_byte(y) + ry,
    ensures
        x == y,
        rx == ry,
{
    let ex = escape_byte(x);
    let ey = escape_byte(y);
    let t = ex + rx;
    assert(t[0] == ex[0] && t[0] == ey[0]);
    if ex.len() >= 2 && ey.len() >= 2 {
        assert(t[1] == ex[1] && t[1] == ey[1]);
    }
    if ex.len() == 4 && ey.len() == 4 {
        assert(t[2] == ex[2] && t[2] == ey[2]);
        assert(t[3] == ex[3] && t[3] == ey[3]);
        lemma_hex_digit(x as int / 16);
        lemma_hex_digit(x as int % 16);
        lemma_hex_digit(y as int / 16);
        lemma_hex_digit(y as int % 16);
        assert(x as int / 16 == y as int / 16);
        assert(x as int % 16 == y as int % 16);
    }
    if ex.len() == 4 && ey.len() == 2 {
        lemma_hex_digit(x as int / 16);
    }
    if ex.len() == 2 && ey.len() == 4 {
        lemma_hex_digit(y as int / 16);
    }
    assert(x == y);
    assert(ex == ey);
    assert(rx =~= t.subrange(ex.len() as int, t.len() as int));
    assert(ry =~= (ey + ry).subrange(ey.len() as int, t.len() as int));
}

proof fn lemma_escaped_injective(a: Seq<u8>, b: Seq<u8>)
    requires
        escaped(a) == escaped(b),
    ensures
        a == b,
    decreases a.len() + b.len(),
{
    if a.len() == 0 && b.len() == 0 {
        assert(a =~= b);
    } else if a.len() == 0 {
        lemma_escaped_front(b);
        lemma_escape_byte_ascii(b[0]);
    } else if b.len() == 0 {
        lemma_escaped_front(a);
        lemma_escape_byte_ascii(a[0]);
    } else {
        lemma_escaped_front(a);
        lemma_escaped_front(b);
        lemma_escape_byte_unique(a[0], b[0], escaped(a.drop_first()), escaped(b.drop_first()));
        lemma_escaped_injective(a.drop_first(), b.drop_first());
        assert(a =~= seq![a[0]] + a.drop_first());
        assert(b =~= seq![b[0]] + b.drop_first());
    }
}

/// Law: quoting loses nothing.  Different byte strings are quoted as
/// different texts, so the text `quote` shows determines the bytes.
pub proof fn law_quote_injective(a: Seq<u8>, b: Seq<u8>)
    requires
        ascii_text(quoted(a)) == ascii_text(quoted(b)),
    ensures
        a == b,
{
    let qa = quoted(a);
    let qb = quoted(b);
    assert(ascii_text(qa).len() == qa.len());
    assert forall|i: int| 0 <= i < qa.len() implies qa[i] == qb[i] by {
        assert(ascii_text(qa)[i] == ascii_text(qb)[i]);
    }
    assert(qa =~= qb);
    assert(escaped(a) =~= qa.subrange(1, qa.len() - 1));
    assert(escaped(b) =~= qb.subrange(1, qb.len() - 1));
    lemma_escaped_injective(a, b);
}

/// The value of a hexadecimal digit (`0`-`9`, `a`-`f`).
pub open spec fn hex_value(c: u8) -> int {
    if c <= 0x39 {
        c - 0x30
    } else {
        c - 0x61 + 10
    }
}

/// The byte a two-character escape `\c` stands for: `n`, `r` and `t` are
/// newline, carriage return and tab; `"` and `\` stand for themselves.
pub open spec fn unescape_char(c: u8) -> u8 {
    if c == 0x6e {
        0x0a
    } else if c == 0x72 {
        0x0d
    } else if c == 0x74 {
        0x09
    } else {
        c
    }
}

/// The bytes an escaped text stands for, read from the front: `\xHH` is
/// the byte with those hex digits, `\` and one character is the byte
/// that escape names, and any other byte stands for itself.
pub open spec fn unescaped(s: Seq<u8>) -> Seq<u8>
    decreases s.len(),
{
    if s.len() == 0 {
        Seq::empty()
    } else if s[0] != 0x5c || s.len() < 2 {
        seq![s[0]] + unescaped(s.drop_first())
    } else if s[1] == 0x78 && s.len() >= 4 {
        seq![(hex_value(s[2]) * 16 + hex_value(s[3])) as u8] + unescaped(
            s.subrange(4, s.len() as int),
        )
    } else {
        seq![unescape_char(s[1])] + unescaped(s.subrange(2, s.len() as int))
    }
}

/// The bytes a quoted text stands for: what lies between its outer
/// quotes, unescaped.
pub open spec fn unquoted(q: Seq<u8>) -> Seq<u8> {
    unescaped(q.subrange(1, q.len() - 1))
}

proof fn lemma_unescape_byte(b: u8, rest: Seq<u8>)
    ensures
        unescaped(escape_byte(b) + rest) == seq![b] + unescaped(rest),
{
    let t = escape_byte(b) + rest;
    let e = escape_byte(b);
    assert(t.len() >= e.len());
    if e.len() == 1 {
        assert(t.drop_first() =~= rest);
        assert(t[0] == b);
    } else if e.len() == 2 {
        assert(t.subrange(2, t.len() as int) =~= rest);
        assert(t[0] == 0x5c && t[1] == e[1]);
    } else {
        assert(t.subrange(4, t.len() as int) =~= rest);
        assert(t[0] == 0x5c && t[1] == 0x78 && t[2] == e[2] && t[3] == e[3]);
        lemma_hex_digit(b as int / 16);
        lemma_hex_digit(b as int % 16);
        assert(hex_value(hex_digit(b as int / 16)) == b as int / 16);
        assert(hex_value(hex_digit(b as int % 16)) == b as int % 16);
        assert((b as int / 16) * 16 + b as int % 16 == b as int);
    }
}

proof fn lemma_unescaped_escaped(a: Seq<u8>)
    ensures
        unescaped(escaped(a)) == a,
    decreases a.len(),
{
    if a.len() == 0 {
        assert(escaped(a) == Seq::<u8>::empty());
    } else {
        lemma_escaped_front(a);
        lemma_unescape_byte(a[0], escaped(a.drop_first()));
        lemma_unescaped_escaped(a.drop_first());
        assert(a =~= seq![a[0]] + a.drop_first());
    }
}

/// Law: quoting decodes back.  Dropping the outer quotes of what `quote`
/// makes of `bytes` and decoding its escapes gives `bytes` again.
pub proof fn law_quote_round_trip(bytes: Seq<u8>)
    ensures
        unquoted(quoted(bytes)) == bytes,
{
    let q = quoted(bytes);
    assert(q.subrange(1, q.len() - 1) =~= escaped(bytes));
    lemma_unescaped_escaped(bytes);
}

/// The text of ASCII bytes, with `String::from_utf8`, which accepts any
/// ASCII bytes (they are UTF-8).  The contract claims the text holds one
/// character per byte, in order.
#[verifier::external_body]
fn ascii_string(bytes: Vec<u8>) -> (r: String)
    requires
        all_ascii(bytes@),
    ensures
        r@ == ascii_text(bytes@),
{
    String::from_utf8(bytes).unwrap()
}

fn push_hex_digit(out: &mut Vec<u8>, d: u8)
    requires
        d < 16,
    ensures
        final(out)@ == old(out)@.push(hex_digit(d as int)),
{
    if d < 10 {
        out.push(0x30 + d);
    } else {
        out.push(0x61 + d - 10);
    }
}

/// The bytes as a double-quoted string literal, with quotes, backslashes
/// and control characters escaped.
pub fn quote(bytes: &[u8]) -> (r: String)
    ensures
        r@ == ascii_text(quoted(bytes@)),
        all_ascii(quoted(bytes@)),
{
    let mut s: Vec<u8> = Vec::new();
    s.push(0x22);
    let mut i: usize = 0;
    while i < bytes.len()
        invariant
            i <= bytes@.len(),
            s@ == seq![0x22u8] + escaped(bytes@.take(i as int)),
            all_ascii(s@),
        decreases bytes.len() - i,
    {
        let b = bytes[i];
        proof {
            assert(bytes@.take(i + 1).drop_last() =~= bytes@.take(i as int));
            lemma_escape_byte_ascii(b);
        }
        let ghost before = s@;
        if b == 0x22 {
            s.push(0x5c);
            s.push(0x22);
        } else if b == 0x5c {
            s.push(0x5c);
            s.push(0x5c);
        } else if b == 0x0a {
            s.push(0x5c);
            s.push(0x6e);
        } else if b == 0x0d {
            s.push(0x5c);
            s.push(0x72);
        } else if b == 0x09 {
            s.push(0x5c);
            s.push(0x74);
        } else if 0x20 <= b && b <= 0x7e {
            s.push(b);
        } else {
            s.push(0x5c);
            s.push(0x78);
            push_hex_digit(&mut s, b / 16);
            push_hex_digit(&mut s, b % 16);
        }
        assert(s@ =~= before + escape_byte(b));
        i = i + 1;
        assert(s@ =~= seq![0x22u8] + escaped(bytes@.take(i as int)));
    }
    s.push(0x22);
    assert(bytes@.take(bytes@.len() as int) =~= bytes@);
    assert(s@ =~= quoted(bytes@));
    ascii_string(s)
}

} // verus!
