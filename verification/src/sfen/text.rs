//! Characters and strings for the text formats.

use vstd::prelude::*;
use vstd::string::StrSliceExecFns;
use crate::shogi::Side;
use crate::piece::PieceKind;

verus! {

/// `String::push`: the character is added at the end of the string.
#[verifier::external_body]
pub(crate) fn string_push(s: &mut String, c: char)
    ensures
        final(s)@ == old(s)@.push(c),
{
    s.push(c)
}

/// The string made of the characters of `v`.
pub fn string_of(v: &Vec<char>) -> (r: String)
    ensures
        r@ == v@,
{
    let mut s: String = String::new();
    let mut i: usize = 0;
    while i < v.len()
        invariant
            i <= v@.len(),
            s@ == v@.subrange(0, i as int),
        decreases v@.len() - i,
    {
        string_push(&mut s, v[i]);
        assert(s@ =~= v@.subrange(0, i + 1));
        i += 1;
    }
    assert(s@ =~= v@);
    s
}

/// The characters of `s`.
pub fn chars_of(s: &str) -> (r: Vec<char>)
    ensures
        r@ == s@,
{
    let n: usize = s.unicode_len();
    let mut v: Vec<char> = Vec::new();
    let mut i: usize = 0;
    while i < n
        invariant
            i <= n,
            n == s@.len(),
            v@ == s@.subrange(0, i as int),
        decreases n - i,
    {
        v.push(s.get_char(i));
        assert(v@ =~= s@.subrange(0, i + 1));
        i += 1;
    }
    assert(v@ =~= s@);
    v
}

/// The digit for `d`, which must be below 10.
pub open spec fn digit_char(d: int) -> char {
    if d == 0 {
        '0'
    } else if d == 1 {
        '1'
    } else if d == 2 {
        '2'
    } else if d == 3 {
        '3'
    } else if d == 4 {
        '4'
    } else if d == 5 {
        '5'
    } else if d == 6 {
        '6'
    } else if d == 7 {
        '7'
    } else if d == 8 {
        '8'
    } else {
        '9'
    }
}

/// The value of a digit, or -1 for another character.
pub open spec fn digit_value(c: char) -> int {
    if c == '0' {
        0
    } else if c == '1' {
        1
    } else if c == '2' {
        2
    } else if c == '3' {
        3
    } else if c == '4' {
        4
    } else if c == '5' {
        5
    } else if c == '6' {
        6
    } else if c == '7' {
        7
    } else if c == '8' {
        8
    } else if c == '9' {
        9
    } else {
        -1
    }
}

/// The letter of a rank: 'a' for rank 1 up to 'i' for rank 9.
pub open spec fn rank_char(r: int) -> char {
    if r == 0 {
        'a'
    } else if r == 1 {
        'b'
    } else if r == 2 {
        'c'
    } else if r == 3 {
        'd'
    } else if r == 4 {
        'e'
    } else if r == 5 {
        'f'
    } else if r == 6 {
        'g'
    } else if r == 7 {
        'h'
    } else {
        'i'
    }
}

/// The rank index of a rank letter, or -1 for another character.
pub open spec fn rank_value(c: char) -> int {
    if c == 'a' {
        0
    } else if c == 'b' {
        1
    } else if c == 'c' {
        2
    } else if c == 'd' {
        3
    } else if c == 'e' {
        4
    } else if c == 'f' {
        5
    } else if c == 'g' {
        6
    } else if c == 'h' {
        7
    } else if c == 'i' {
        8
    } else {
        -1
    }
}

/// The letter of a kind that is not promoted, upper case for HUM and lower
/// case for COM.
pub open spec fn kind_char(side: Side, pk: PieceKind) -> char {
    match side {
        Side::Hum => match pk {
            PieceKind::King => 'K',
            PieceKind::Rook => 'R',
            PieceKind::Bishop => 'B',
            PieceKind::Gold => 'G',
            PieceKind::Silver => 'S',
            PieceKind::Knight => 'N',
            PieceKind::Lance => 'L',
            _ => 'P',
        },
        Side::Com => match pk {
            PieceKind::King => 'k',
            PieceKind::Rook => 'r',
            PieceKind::Bishop => 'b',
            PieceKind::Gold => 'g',
            PieceKind::Silver => 's',
            PieceKind::Knight => 'n',
            PieceKind::Lance => 'l',
            _ => 'p',
        },
    }
}

/// The side and kind that a letter stands for, if any.
pub open spec fn kind_of_char(c: char) -> Option<(Side, PieceKind)> {
    if c == 'K' {
        Some((Side::Hum, PieceKind::King))
    } else if c == 'R' {
        Some((Side::Hum, PieceKind::Rook))
    } else if c == 'B' {
        Some((Side::Hum, PieceKind::Bishop))
    } else if c == 'G' {
        Some((Side::Hum, PieceKind::Gold))
    } else if c == 'S' {
        Some((Side::Hum, PieceKind::Silver))
    } else if c == 'N' {
        Some((Side::Hum, PieceKind::Knight))
    } else if c == 'L' {
        Some((Side::Hum, PieceKind::Lance))
    } else if c == 'P' {
        Some((Side::Hum, PieceKind::Pawn))
    } else if c == 'k' {
        Some((Side::Com, PieceKind::King))
    } else if c == 'r' {
        Some((Side::Com, PieceKind::Rook))
    } else if c == 'b' {
        Some((Side::Com, PieceKind::Bishop))
    } else if c == 'g' {
        Some((Side::Com, PieceKind::Gold))
    } else if c == 's' {
        Some((Side::Com, PieceKind::Silver))
    } else if c == 'n' {
        Some((Side::Com, PieceKind::Knight))
    } else if c == 'l' {
        Some((Side::Com, PieceKind::Lance))
    } else if c == 'p' {
        Some((Side::Com, PieceKind::Pawn))
    } else {
        None
    }
}

/// The digit for `d`, which must be below 10.
pub fn digit_to_char(d: u32) -> (c: char)
    requires
        d < 10,
    ensures
        c == digit_char(d as int),
        digit_value(c) == d,
{
    if d == 0 {
        '0'
    } else if d == 1 {
        '1'
    } else if d == 2 {
        '2'
    } else if d == 3 {
        '3'
    } else if d == 4 {
        '4'
    } else if d == 5 {
        '5'
    } else if d == 6 {
        '6'
    } else if d == 7 {
        '7'
    } else if d == 8 {
        '8'
    } else {
        '9'
    }
}

/// The value of a digit, if the character is one.
pub fn char_to_digit(c: char) -> (r: Option<u32>)
    ensures
        match r {
            Some(d) => d == digit_value(c) && d < 10,
            None => digit_value(c) == -1,
        },
{
    if c == '0' {
        Some(0)
    } else if c == '1' {
        Some(1)
    } else if c == '2' {
        Some(2)
    } else if c == '3' {
        Some(3)
    } else if c == '4' {
        Some(4)
    } else if c == '5' {
        Some(5)
    } else if c == '6' {
        Some(6)
    } else if c == '7' {
        Some(7)
    } else if c == '8' {
        Some(8)
    } else if c == '9' {
        Some(9)
    } else {
        None
    }
}

/// The letter of the rank with index `r`, which must be below 9.
pub fn rank_to_char(r: u32) -> (c: char)
    requires
        r < 9,
    ensures
        c == rank_char(r as int),
        rank_value(c) == r,
{
    if r == 0 {
        'a'
    } else if r == 1 {
        'b'
    } else if r == 2 {
        'c'
    } else if r == 3 {
        'd'
    } else if r == 4 {
        'e'
    } else if r == 5 {
        'f'
    } else if r == 6 {
        'g'
    } else if r == 7 {
        'h'
    } else {
        'i'
    }
}

/// The rank index of a rank letter, if the character is one.
pub fn char_to_rank(c: char) -> (r: Option<u32>)
    ensures
        match r {
            Some(d) => d == rank_value(c) && d < 9,
            None => rank_value(c) == -1,
        },
{
    if c == 'a' {
        Some(0)
    } else if c == 'b' {
        Some(1)
    } else if c == 'c' {
        Some(2)
    } else if c == 'd' {
        Some(3)
    } else if c == 'e' {
        Some(4)
    } else if c == 'f' {
        Some(5)
    } else if c == 'g' {
        Some(6)
    } else if c == 'h' {
        Some(7)
    } else if c == 'i' {
        Some(8)
    } else {
        None
    }
}

/// The letter of a kind that is not promoted and is a kind of piece.
pub fn kind_to_char(side: Side, pk: PieceKind) -> (c: char)
    requires
        1 <= pk.value() <= 8,
    ensures
        c == kind_char(side, pk),
        kind_of_char(c) == Some((side, pk)),
{
    match side {
        Side::Hum => match pk {
            PieceKind::King => 'K',
            PieceKind::Rook => 'R',
            PieceKind::Bishop => 'B',
            PieceKind::Gold => 'G',
            PieceKind::Silver => 'S',
            PieceKind::Knight => 'N',
            PieceKind::Lance => 'L',
            _ => 'P',
        },
        Side::Com => match pk {
            PieceKind::King => 'k',
            PieceKind::Rook => 'r',
            PieceKind::Bishop => 'b',
            PieceKind::Gold => 'g',
            PieceKind::Silver => 's',
            PieceKind::Knight => 'n',
            PieceKind::Lance => 'l',
            _ => 'p',
        },
    }
}

/// The side and kind that a letter stands for, if any.
pub fn char_to_kind(c: char) -> (r: Option<(Side, PieceKind)>)
    ensures
        r == kind_of_char(c),
        r.is_some() ==> 1 <= r.unwrap().1.value() <= 8,
{
    if c == 'K' {
        Some((Side::Hum, PieceKind::King))
    } else if c == 'R' {
        Some((Side::Hum, PieceKind::Rook))
    } else if c == 'B' {
        Some((Side::Hum, PieceKind::Bishop))
    } else if c == 'G' {
        Some((Side::Hum, PieceKind::Gold))
    } else if c == 'S' {
        Some((Side::Hum, PieceKind::Silver))
    } else if c == 'N' {
        Some((Side::Hum, PieceKind::Knight))
    } else if c == 'L' {
        Some((Side::Hum, PieceKind::Lance))
    } else if c == 'P' {
        Some((Side::Hum, PieceKind::Pawn))
    } else if c == 'k' {
        Some((Side::Com, PieceKind::King))
    } else if c == 'r' {
        Some((Side::Com, PieceKind::Rook))
    } else if c == 'b' {
        Some((Side::Com, PieceKind::Bishop))
    } else if c == 'g' {
        Some((Side::Com, PieceKind::Gold))
    } else if c == 's' {
        Some((Side::Com, PieceKind::Silver))
    } else if c == 'n' {
        Some((Side::Com, PieceKind::Knight))
    } else if c == 'l' {
        Some((Side::Com, PieceKind::Lance))
    } else if c == 'p' {
        Some((Side::Com, PieceKind::Pawn))
    } else {
        None
    }
}

/// The decimal digits of `n`, most significant first, without leading
/// zeros; "0" for 0.
pub open spec fn decimal(n: nat) -> Seq<char>
    decreases n,
{
    if n < 10 {
        seq![digit_char(n as int)]
    } else {
        decimal(n / 10).push(digit_char((n % 10) as int))
    }
}

/// Adds the decimal digits of `n` to `out`.
pub fn push_decimal(n: u32, out: &mut Vec<char>)
    ensures
        final(out)@ == old(out)@ + decimal(n as nat),
{
    let mut digits: Vec<char> = Vec::new();
    let mut m: u32 = n;
    digits.push(digit_to_char(m % 10));
    m = m / 10;
    let ghost mut tail: Seq<char> = seq![digit_char((n % 10) as int)];
    while m > 0
        invariant
            digits@.len() >= 1,
            tail.len() == digits@.len(),
            forall|i: int| 0 <= i < tail.len() ==> tail[i] == digits@[digits@.len() - 1 - i],
            decimal(n as nat) == (if m == 0 { tail } else { decimal(m as nat) + tail }),
        decreases m,
    {
        let ghost m0 = m;
        let ghost tail0 = tail;
        digits.push(digit_to_char(m % 10));
        m = m / 10;
        proof {
            tail = seq![digit_char((m0 % 10) as int)] + tail0;
            if m0 >= 10 {
                assert(decimal(m0 as nat) == decimal((m0 / 10) as nat).push(digit_char((m0 % 10) as int)));
                assert(decimal((m0 / 10) as nat).push(digit_char((m0 % 10) as int)) + tail0
                    =~= decimal((m0 / 10) as nat) + tail);
            } else {
                assert(decimal(m0 as nat) =~= seq![digit_char(m0 as int)]);
                assert(decimal(m0 as nat) + tail0 =~= tail);
            }
        }
    }
    let ghost base = out@;
    let mut i: usize = digits.len();
    while i > 0
        invariant
            i <= digits@.len(),
            tail.len() == digits@.len(),
            forall|k: int| 0 <= k < tail.len() ==> tail[k] == digits@[digits@.len() - 1 - k],
            out@ == base + tail.subrange(0, digits@.len() - i),
        decreases i,
    {
        i -= 1;
        out.push(digits[i]);
        assert(out@ =~= base + tail.subrange(0, digits@.len() - i));
    }
    assert(tail.subrange(0, tail.len() as int) =~= tail);
}

} // verus!
