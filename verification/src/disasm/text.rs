//! Number and register formatting for the disassembler's text.

use vstd::prelude::*;

verus! {

/// The uppercase hexadecimal digit for `d` (below 16).
pub open spec fn hex_char(d: nat) -> char {
    if d < 10 {
        ('0' as u32 + d) as char
    } else {
        ('A' as u32 + (d - 10)) as char
    }
}

/// `v` in uppercase hexadecimal, without leading zeros.
pub open spec fn hex_spec(v: nat) -> Seq<char>
    decreases v,
{
    if v < 16 {
        seq![hex_char(v)]
    } else {
        hex_spec(v / 16).push(hex_char(v % 16))
    }
}

/// Appends one hexadecimal digit.
fn put_hex_digit(out: &mut String, d: u32)
    requires
        d < 16,
    ensures
        final(out)@ == old(out)@.push(hex_char(d as nat)),
{
    let s: &str = match d {
        0 => "0",
        1 => "1",
        2 => "2",
        3 => "3",
        4 => "4",
        5 => "5",
        6 => "6",
        7 => "7",
        8 => "8",
        9 => "9",
        10 => "A",
        11 => "B",
        12 => "C",
        13 => "D",
        14 => "E",
        _ => "F",
    };
    proof {
        reveal_strlit("0");
        reveal_strlit("1");
        reveal_strlit("2");
        reveal_strlit("3");
        reveal_strlit("4");
        reveal_strlit("5");
        reveal_strlit("6");
        reveal_strlit("7");
        reveal_strlit("8");
        reveal_strlit("9");
        reveal_strlit("A");
        reveal_strlit("B");
        reveal_strlit("C");
        reveal_strlit("D");
        reveal_strlit("E");
        reveal_strlit("F");
    }
    out.append(s);
    assert(s@ == seq![hex_char(d as nat)]);
}

/// Appends `v` in uppercase hexadecimal.
pub fn put_hex(out: &mut String, v: u32)
    ensures
        final(out)@ == old(out)@ + hex_spec(v as nat),
    decreases v,
{
    if v >= 16 {
        put_hex(out, v / 16);
    }
    put_hex_digit(out, v % 16);
}

} // verus!

verus! {

/// `v` in hexadecimal, left-padded with zeros to at least `width` digits.
pub open spec fn hex_pad_spec(v: nat, width: nat) -> Seq<char> {
    let h = hex_spec(v);
    if h.len() < width {
        Seq::new((width - h.len()) as nat, |i: int| '0') + h
    } else {
        h
    }
}

/// The number of hexadecimal digits of `v`.
fn hex_len(v: u32) -> (n: u32)
    ensures
        n == hex_spec(v as nat).len(),
        1 <= n <= 8,
    decreases v,
{
    if v >= 16 {
        proof {
            lemma_hex_len(v as nat);
        }
        1 + hex_len(v / 16)
    } else {
        1
    }
}

proof fn lemma_hex_len(v: nat)
    ensures
        1 <= hex_spec(v).len(),
        v < 0x10 ==> hex_spec(v).len() <= 1,
        v < 0x100 ==> hex_spec(v).len() <= 2,
        v < 0x1000 ==> hex_spec(v).len() <= 3,
        v < 0x1_0000 ==> hex_spec(v).len() <= 4,
        v < 0x10_0000 ==> hex_spec(v).len() <= 5,
        v < 0x100_0000 ==> hex_spec(v).len() <= 6,
        v < 0x1000_0000 ==> hex_spec(v).len() <= 7,
        v < 0x1_0000_0000 ==> hex_spec(v).len() <= 8,
    decreases v,
{
    if v >= 16 {
        lemma_hex_len(v / 16);
    }
}

/// Appends `v` in hexadecimal, zero-padded to `width` digits.
pub fn put_hex_pad(out: &mut String, v: u32, width: u32)
    requires
        width <= 8,
    ensures
        final(out)@ == old(out)@ + hex_pad_spec(v as nat, width as nat),
{
    let n = hex_len(v);
    let mut i = n;
    let ghost start = out@;
    while i < width
        invariant
            n <= i,
            n <= width ==> i <= width,
            i > n ==> n < width,
            out@ == start + Seq::new((i - n) as nat, |j: int| '0'),
        decreases width - i,
    {
        out.append("0");
        proof {
            reveal_strlit("0");
        }
        assert(out@ =~= start + Seq::new((i + 1 - n) as nat, |j: int| '0'));
        i = i + 1;
    }
    put_hex(out, v);
    assert(out@ =~= start + hex_pad_spec(v as nat, width as nat));
}

/// The decimal digit for `d` (below 10).
pub open spec fn dec_char(d: nat) -> char {
    ('0' as u32 + d) as char
}

/// `v` in decimal, without leading zeros.
pub open spec fn udec_spec(v: nat) -> Seq<char>
    decreases v,
{
    if v < 10 {
        seq![dec_char(v)]
    } else {
        udec_spec(v / 10).push(dec_char(v % 10))
    }
}

/// `v` in decimal, with a minus sign when negative.
pub open spec fn sdec_spec(v: int) -> Seq<char> {
    if v < 0 {
        seq!['-'] + udec_spec((-v) as nat)
    } else {
        udec_spec(v as nat)
    }
}

/// Appends `v` in decimal.
pub fn put_udec(out: &mut String, v: u32)
    ensures
        final(out)@ == old(out)@ + udec_spec(v as nat),
    decreases v,
{
    if v >= 10 {
        put_udec(out, v / 10);
    }
    put_hex_digit(out, v % 10);
}

/// Appends `v` in decimal, signed.
pub fn put_sdec(out: &mut String, v: i32)
    ensures
        final(out)@ == old(out)@ + sdec_spec(v as int),
{
    if v < 0 {
        out.append("-");
        proof {
            reveal_strlit("-");
        }
        let m: u32 = if v == i32::MIN {
            0x8000_0000
        } else {
            (-v) as u32
        };
        put_udec(out, m);
    } else {
        put_udec(out, v as u32);
    }
}

} // verus!
