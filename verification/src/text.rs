//! Numbers and bytes as text.

use vstd::prelude::*;
use vstd::string::{StrSliceExecFns, StringExecFns};
use vstd::utf8::{char_is_scalar, encode_scalar, encode_utf8};

verus! {

/// A digit, up to sixteen of them.
pub open spec fn digit(d: nat) -> Seq<char> {
    if d == 0 {
        seq!['0']
    } else if d == 1 {
        seq!['1']
    } else if d == 2 {
        seq!['2']
    } else if d == 3 {
        seq!['3']
    } else if d == 4 {
        seq!['4']
    } else if d == 5 {
        seq!['5']
    } else if d == 6 {
        seq!['6']
    } else if d == 7 {
        seq!['7']
    } else if d == 8 {
        seq!['8']
    } else if d == 9 {
        seq!['9']
    } else if d == 10 {
        seq!['a']
    } else if d == 11 {
        seq!['b']
    } else if d == 12 {
        seq!['c']
    } else if d == 13 {
        seq!['d']
    } else if d == 14 {
        seq!['e']
    } else {
        seq!['f']
    }
}

/// `n` in decimal, without leading zeros.
pub open spec fn decimal(n: nat) -> Seq<char>
    decreases n,
{
    if n < 10 {
        digit(n)
    } else {
        decimal(n / 10) + digit(n % 10)
    }
}

/// `n` in hexadecimal, without leading zeros.
pub open spec fn hex_digits(n: nat) -> Seq<char>
    decreases n,
{
    if n < 16 {
        digit(n)
    } else {
        hex_digits(n / 16) + digit(n % 16)
    }
}

/// `n` in hexadecimal, with its prefix.
pub open spec fn hex(n: nat) -> Seq<char> {
    seq!['0', 'x'] + hex_digits(n)
}

/// Two hexadecimal digits.
pub open spec fn hex_pair(b: u8) -> Seq<char> {
    digit((b / 16) as nat) + digit((b % 16) as nat)
}

/// A byte in hexadecimal, with its prefix.
pub open spec fn hex_byte(b: u8) -> Seq<char> {
    seq!['0', 'x'] + hex_pair(b)
}

fn digit_str(d: u64) -> (s: &'static str)
    requires
        d < 16,
    ensures
        s@ == digit(d as nat),
{
    proof {
        reveal_strlit("0");
        reveal_strlit("1");
        reveal_strlit("2");
        reveal_strlit("3");
        reveal_strlit("4");
        reveal_strlit("5");
        reveal_strlit("6");
        reveal_strlit("7");
        reveal_strlit("8");
        reveal_strlit("9");
        reveal_strlit("a");
        reveal_strlit("b");
        reveal_strlit("c");
        reveal_strlit("d");
        reveal_strlit("e");
        reveal_strlit("f");
    }
    let s = match d {
        0 => "0",
        1 => "1",
        2 => "2",
        3 => "3",
        4 => "4",
        5 => "5",
        6 => "6",
        7 => "7",
        8 => "8",
        9 => "9",
        10 => "a",
        11 => "b",
        12 => "c",
        13 => "d",
        14 => "e",
        _ => "f",
    };
    assert(s@ =~= digit(d as nat));
    s
}

/// Append `n` in decimal.
pub fn push_decimal(out: &mut String, n: u64)
    ensures
        final(out)@ == old(out)@ + decimal(n as nat),
    decreases n,
{
    if n < 10 {
        out.append(digit_str(n));
    } else {
        push_decimal(out, n / 10);
        out.append(digit_str(n % 10));
        assert(out@ =~= old(out)@ + decimal(n as nat));
    }
}

fn push_hex_digits(out: &mut String, n: u64)
    ensures
        final(out)@ == old(out)@ + hex_digits(n as nat),
    decreases n,
{
    if n < 16 {
        out.append(digit_str(n));
    } else {
        push_hex_digits(out, n / 16);
        out.append(digit_str(n % 16));
        assert(out@ =~= old(out)@ + hex_digits(n as nat));
    }
}

/// Append `n` in hexadecimal, with its prefix.
pub fn push_hex(out: &mut String, n: u64)
    ensures
        final(out)@ == old(out)@ + hex(n as nat),
{
    proof {
        reveal_strlit("0x");
    }
    out.append("0x");
    push_hex_digits(out, n);
    assert(out@ =~= old(out)@ + hex(n as nat));
}

/// Append two hexadecimal digits.
pub fn push_hex_pair(out: &mut String, b: u8)
    ensures
        final(out)@ == old(out)@ + hex_pair(b),
{
    out.append(digit_str((b / 16) as u64));
    out.append(digit_str((b % 16) as u64));
    assert(out@ =~= old(out)@ + hex_pair(b));
}

/// Append a byte in hexadecimal, with its prefix.
pub fn push_hex_byte(out: &mut String, b: u8)
    ensures
        final(out)@ == old(out)@ + hex_byte(b),
{
    proof {
        reveal_strlit("0x");
    }
    out.append("0x");
    push_hex_pair(out, b);
    assert(out@ =~= old(out)@ + hex_byte(b));
}

/// Append literal text.
pub fn push_text(out: &mut String, s: &str)
    ensures
        final(out)@ == old(out)@ + s@,
{
    out.append(s);
}

/// The bytes a text takes as UTF-8.
pub open spec fn byte_len(text: Seq<char>) -> nat {
    encode_utf8(text).len()
}

/// Whether `text` is as much of `all` as `room` bytes can hold, whole
/// characters only.
pub open spec fn cut_to_fit(text: Seq<char>, all: Seq<char>, room: nat) -> bool {
    &&& text.is_prefix_of(all)
    &&& byte_len(text) <= room
    &&& text == all || byte_len(all.take(text.len() as int + 1)) > room
    &&& byte_len(all) <= room ==> text == all
}

proof fn lemma_one_more_char(s: Seq<char>, c: char)
    ensures
        byte_len(s.push(c)) == byte_len(s) + encode_scalar(c as u32).len(),
    decreases s.len(),
{
    let t = s.push(c);
    if s.len() == 0 {
        assert(t.drop_first() =~= Seq::empty());
        reveal_with_fuel(encode_utf8, 2);
        assert(encode_utf8(t) =~= encode_scalar(c as u32));
    } else {
        assert(t.drop_first() =~= s.drop_first().push(c));
        lemma_one_more_char(s.drop_first(), c);
    }
}

/// A longer prefix takes no fewer bytes.
proof fn lemma_prefix_bytes(s: Seq<char>, k: int)
    requires
        0 <= k <= s.len(),
    ensures
        byte_len(s.take(k)) <= byte_len(s),
    decreases s.len() - k,
{
    if k == s.len() {
        assert(s.take(k) =~= s);
    } else {
        lemma_prefix_bytes(s, k + 1);
        lemma_one_more_char(s.take(k), s[k]);
        assert(s.take(k).push(s[k]) =~= s.take(k + 1));
    }
}

/// The bytes a character takes as UTF-8.
fn char_width(c: char) -> (n: usize)
    ensures
        n == encode_scalar(c as u32).len(),
        1 <= n <= 4,
{
    proof {
        char_is_scalar(c);
    }
    let v: u32 = c as u32;
    if v < 0x80 {
        1
    } else if v < 0x800 {
        2
    } else if v < 0x10000 {
        3
    } else {
        4
    }
}

/// As much of a text as `room` bytes can hold, whole characters only.
pub fn fitting(all: &str, room: usize) -> (text: String)
    ensures
        cut_to_fit(text@, all@, room as nat),
{
    let len: usize = all.unicode_len();
    let mut n: usize = 0;
    let mut used: usize = 0;
    assert(all@.take(0) =~= Seq::empty());
    while n < len
        invariant
            n <= len == all@.len(),
            used == byte_len(all@.take(n as int)),
            used <= room,
        decreases len - n,
    {
        let w: usize = char_width(all.get_char(n));
        proof {
            lemma_one_more_char(all@.take(n as int), all@[n as int]);
            assert(all@.take(n as int).push(all@[n as int]) =~= all@.take(n + 1));
        }
        if w > room - used {
            let cut = all.substring_char(0, n);
            proof {
                assert(cut@ =~= all@.take(n as int));
                lemma_prefix_bytes(all@, n + 1);
            }
            return cut.to_owned();
        }
        used = used + w;
        n = n + 1;
    }
    assert(all@.take(n as int) =~= all@);
    all.to_owned()
}

/// Two cuts of one text to one size are the same.
pub proof fn lemma_cut_unique(a: Seq<char>, b: Seq<char>, all: Seq<char>, room: nat)
    requires
        cut_to_fit(a, all, room),
        cut_to_fit(b, all, room),
    ensures
        a == b,
{
    assert(a =~= all.take(a.len() as int));
    assert(b =~= all.take(b.len() as int));
    if a.len() < b.len() {
        lemma_prefix_bytes(b, a.len() as int + 1);
        assert(b.take(a.len() as int + 1) =~= all.take(a.len() as int + 1));
    } else if b.len() < a.len() {
        lemma_prefix_bytes(a, b.len() as int + 1);
        assert(a.take(b.len() as int + 1) =~= all.take(b.len() as int + 1));
    }
}

} // verus!
