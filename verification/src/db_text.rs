//! Decibel text for the threshold parameter.
//!
//! The parameter's display domain is decibels with two decimal places, such
//! as `-3.50 dB`; its value here is an integer count of hundredths of a
//! decibel. Rendering and parsing are exact inverses: parsing accepts
//! precisely the canonical rendering of some in-range value and returns that
//! value, so a displayed string always reads back as the gain it displays.

use vstd::prelude::*;

verus! {

/// Smallest representable parameter value, in hundredths of a decibel.
pub const DB_MIN: i64 = -3600;

/// Largest representable parameter value, in hundredths of a decibel.
pub const DB_MAX: i64 = 3600;

pub open spec fn valid_db(v: i64) -> bool {
    DB_MIN <= v <= DB_MAX
}

/// The decimal digit characters.
pub open spec fn digit_char(d: int) -> char {
    if d == 0 {
        '0'
    } else if d == 1 {
        '1'
    } else if d == 2 {
        '2'
    } else if d == 3 {
        '3'
    } else if d == 4 {
        '4'
    } else if d == 5 {
        '5'
    } else if d == 6 {
        '6'
    } else if d == 7 {
        '7'
    } else if d == 8 {
        '8'
    } else {
        '9'
    }
}

/// The digits of a nonnegative value `m` in hundredths of a decibel:
/// the whole decibels without a leading zero, a point, two decimals.
pub open spec fn db_digits(m: int) -> Seq<char> {
    let i = m / 100;
    let f = m % 100;
    let whole = if i >= 10 {
        seq![digit_char(i / 10), digit_char(i % 10)]
    } else {
        seq![digit_char(i)]
    };
    whole + seq!['.', digit_char(f / 10), digit_char(f % 10)]
}

/// The canonical rendering of a value: an optional minus sign, the digits,
/// and the unit.
pub open spec fn db_text(v: int) -> Seq<char> {
    let core = if v < 0 {
        seq!['-'] + db_digits(-v)
    } else {
        db_digits(v)
    };
    core + seq![' ', 'd', 'B']
}

/// Every character of the canonical rendering, spelled out by position.
pub proof fn lemma_db_text_shape(v: int)
    requires
        -3600 <= v <= 3600,
    ensures
        ({
            let t = db_text(v);
            let m = if v < 0 { -v } else { v };
            let sign: int = if v < 0 { 1int } else { 0int };
            let dc: int = if m >= 1000 { 2int } else { 1int };
            &&& t.len() == sign + dc + 6
            &&& (v < 0 <==> t[0] == '-')
            &&& (m >= 1000 ==> t[sign] == digit_char(m / 1000) && 1 <= m / 1000 <= 3
                && t[sign + 1] == digit_char((m / 100) % 10))
            &&& (m < 1000 ==> t[sign] == digit_char(m / 100) && m / 100 <= 9)
            &&& t[sign + dc] == '.'
            &&& t[sign + dc + 1] == digit_char((m % 100) / 10)
            &&& t[sign + dc + 2] == digit_char(m % 10)
            &&& t[sign + dc + 3] == ' '
            &&& t[sign + dc + 4] == 'd'
            &&& t[sign + dc + 5] == 'B'
        }),
{
    let m = if v < 0 { -v } else { v };
    let i = m / 100;
    let f = m % 100;
    assert(0 <= f < 100 && 0 <= i <= 36 && m == 100 * i + f) by (nonlinear_arith)
        requires
            0 <= m <= 3600,
            i == m / 100,
            f == m % 100,
    ;
    assert(i >= 10 <==> m >= 1000) by (nonlinear_arith)
        requires
            0 <= f < 100,
            m == 100 * i + f,
    ;
    if i >= 10 {
        assert(i / 10 == m / 1000 && i % 10 == (m / 100) % 10) by (nonlinear_arith)
            requires
                i == m / 100,
                0 <= m <= 3600,
        ;
    }
    assert(f / 10 == (m % 100) / 10 && f % 10 == m % 10) by (nonlinear_arith)
        requires
            f == m % 100,
            0 <= m,
    ;
}

/// Distinct digits render as distinct characters.
pub proof fn lemma_digit_char_injective(a: int, b: int)
    requires
        0 <= a <= 9,
        0 <= b <= 9,
        digit_char(a) == digit_char(b),
    ensures
        a == b,
{
}

/// Two values with the same rendering are the same value: a displayed
/// decibel string determines the gain it shows.
pub proof fn lemma_db_text_injective(v1: int, v2: int)
    requires
        -3600 <= v1 <= 3600,
        -3600 <= v2 <= 3600,
        db_text(v1) == db_text(v2),
    ensures
        v1 == v2,
{
    lemma_db_text_shape(v1);
    lemma_db_text_shape(v2);
    let m1 = if v1 < 0 { -v1 } else { v1 };
    let m2 = if v2 < 0 { -v2 } else { v2 };
    assert((v1 < 0) == (v2 < 0));
    assert((m1 >= 1000) == (m2 >= 1000));
    if m1 >= 1000 {
        lemma_digit_char_injective(m1 / 1000, m2 / 1000);
        lemma_digit_char_injective((m1 / 100) % 10, (m2 / 100) % 10);
    } else {
        lemma_digit_char_injective(m1 / 100, m2 / 100);
    }
    lemma_digit_char_injective((m1 % 100) / 10, (m2 % 100) / 10);
    lemma_digit_char_injective(m1 % 10, m2 % 10);
    assert(m1 == m2) by (nonlinear_arith)
        requires
            0 <= m1 <= 3600,
            0 <= m2 <= 3600,
            m1 / 1000 == m2 / 1000 || (m1 < 1000 && m2 < 1000),
            m1 / 100 == m2 / 100 || (m1 >= 1000 && m2 >= 1000 && (m1 / 100) % 10 == (m2 / 100)
                % 10 && m1 / 1000 == m2 / 1000),
            (m1 % 100) / 10 == (m2 % 100) / 10,
            m1 % 10 == m2 % 10,
    ;
}

/// Append one decimal digit to a string.
fn push_digit(s: &mut String, d: u64)
    requires
        d <= 9,
    ensures
        final(s)@ == old(s)@.push(digit_char(d as int)),
{
    proof {
        reveal_strlit("0");
        reveal_strlit("1");
        reveal_strlit("2");
        reveal_strlit("3");
        reveal_strlit("4");
        reveal_strlit("5");
        reveal_strlit("6");
        reveal_strlit("7");
        reveal_strlit("8");
        reveal_strlit("9");
    }
    match d {
        0 => s.append("0"),
        1 => s.append("1"),
        2 => s.append("2"),
        3 => s.append("3"),
        4 => s.append("4"),
        5 => s.append("5"),
        6 => s.append("6"),
        7 => s.append("7"),
        8 => s.append("8"),
        _ => s.append("9"),
    }
    assert(s@ =~= old(s)@.push(digit_char(d as int)));
}

/// Render a value as its decibel string, two decimal places and the unit.
pub fn format_db(v: i64) -> (r: String)
    requires
        valid_db(v),
    ensures
        r@ == db_text(v as int),
{
    proof {
        reveal_strlit("-");
        reveal_strlit(".");
        reveal_strlit(" dB");
    }
    let mut s = String::new();
    let m: u64 = if v < 0 {
        s.append("-");
        (-v) as u64
    } else {
        v as u64
    };
    let i: u64 = m / 100;
    let f: u64 = m % 100;
    if i >= 10 {
        push_digit(&mut s, i / 10);
        push_digit(&mut s, i % 10);
    } else {
        push_digit(&mut s, i);
    }
    s.append(".");
    push_digit(&mut s, f / 10);
    push_digit(&mut s, f % 10);
    s.append(" dB");
    assert(s@ =~= db_text(v as int));
    s
}

/// Read one decimal digit character.
fn char_digit(c: char) -> (r: Option<i64>)
    ensures
        match r {
            Some(d) => 0 <= d <= 9 && c == digit_char(d as int),
            None => forall|d: int| 0 <= d <= 9 ==> c != digit_char(d),
        },
{
    match c {
        '0' => Some(0),
        '1' => Some(1),
        '2' => Some(2),
        '3' => Some(3),
        '4' => Some(4),
        '5' => Some(5),
        '6' => Some(6),
        '7' => Some(7),
        '8' => Some(8),
        '9' => Some(9),
        _ => None,
    }
}

/// Parse a decibel string back into hundredths of a decibel.
///
/// Exactly the canonical renderings are accepted: parsing succeeds if and
/// only if the text is `db_text` of some in-range value, and then returns
/// that value — the round trip through `format_db` is the identity.
pub fn parse_db(s: &str) -> (r: Option<i64>)
    ensures
        match r {
            Some(v) => valid_db(v) && s@ == db_text(v as int),
            None => forall|v: i64| valid_db(v) ==> s@ != db_text(v as int),
        },
{
    let len: usize = s.unicode_len();
    if len < 7 || len > 9 {
        proof {
            assert forall|v: i64| valid_db(v) implies s@ != db_text(v as int) by {
                lemma_db_text_shape(v as int);
            }
        }
        return None;
    }
    let neg: bool = s.get_char(0) == '-';
    let off: usize = if neg {
        1
    } else {
        0
    };
    let body: usize = len - off;
    if body != 7 && body != 8 {
        proof {
            assert forall|v: i64| valid_db(v) implies s@ != db_text(v as int) by {
                lemma_db_text_shape(v as int);
            }
        }
        return None;
    }
    let dcount: usize = body - 6;
    let whole: i64 = if dcount == 2 {
        let h0 = char_digit(s.get_char(off));
        let h1 = char_digit(s.get_char(off + 1));
        match (h0, h1) {
            (Some(a), Some(b)) => {
                if a == 0 {
                    proof {
                        assert forall|v: i64| valid_db(v) implies s@ != db_text(v as int) by {
                            lemma_db_text_shape(v as int);
                            if s@ == db_text(v as int) {
                                let m = if v < 0 { -(v as int) } else { v as int };
                                if m >= 1000 {
                                    lemma_digit_char_injective(0, m / 1000);
                                }
                            }
                        }
                    }
                    return None;
                }
                a * 10 + b
            },
            _ => {
                proof {
                    assert forall|v: i64| valid_db(v) implies s@ != db_text(v as int) by {
                        lemma_db_text_shape(v as int);
                    }
                }
                return None;
            },
        }
    } else {
        match char_digit(s.get_char(off)) {
            Some(a) => a,
            None => {
                proof {
                    assert forall|v: i64| valid_db(v) implies s@ != db_text(v as int) by {
                        lemma_db_text_shape(v as int);
                    }
                }
                return None;
            },
        }
    };
    let dot: char = s.get_char(off + dcount);
    let f0 = char_digit(s.get_char(off + dcount + 1));
    let f1 = char_digit(s.get_char(off + dcount + 2));
    let u0: char = s.get_char(off + dcount + 3);
    let u1: char = s.get_char(off + dcount + 4);
    let u2: char = s.get_char(off + dcount + 5);
    match (f0, f1) {
        (Some(fa), Some(fb)) => {
            if dot != '.' || u0 != ' ' || u1 != 'd' || u2 != 'B' {
                proof {
                    assert forall|v: i64| valid_db(v) implies s@ != db_text(v as int) by {
                        lemma_db_text_shape(v as int);
                    }
                }
                return None;
            }
            let mag: i64 = whole * 100 + fa * 10 + fb;
            if mag > 3600 || (neg && mag == 0) {
                proof {
                    assert forall|v: i64| valid_db(v) implies s@ != db_text(v as int) by {
                        lemma_db_text_shape(v as int);
                        if s@ == db_text(v as int) {
                            let m = if v < 0 { -(v as int) } else { v as int };
                            if m >= 1000 {
                                lemma_digit_char_injective(whole as int / 10, m / 1000);
                                lemma_digit_char_injective(whole as int % 10, (m / 100) % 10);
                            } else {
                                lemma_digit_char_injective(whole as int, m / 100);
                            }
                            lemma_digit_char_injective(fa as int, (m % 100) / 10);
                            lemma_digit_char_injective(fb as int, m % 10);
                            assert(m == mag) by (nonlinear_arith)
                                requires
                                    0 <= m <= 3600,
                                    mag == whole * 100 + fa * 10 + fb,
                                    0 <= fa <= 9,
                                    0 <= fb <= 9,
                                    m >= 1000 ==> whole / 10 == m / 1000 && whole % 10 == (m
                                        / 100) % 10 && whole >= 10,
                                    m < 1000 ==> whole == m / 100,
                                    fa == (m % 100) / 10,
                                    fb == m % 10,
                            ;
                        }
                    }
                }
                return None;
            }
            let v: i64 = if neg {
                -mag
            } else {
                mag
            };
            proof {
                lemma_db_text_shape(v as int);
                let m = if v < 0 { -(v as int) } else { v as int };
                assert(m == mag);
                assert(m >= 1000 <==> dcount == 2) by (nonlinear_arith)
                    requires
                        m == whole * 100 + fa * 10 + fb,
                        0 <= fa <= 9,
                        0 <= fb <= 9,
                        dcount == 2 ==> 10 <= whole <= 99,
                        dcount == 1 ==> 0 <= whole <= 9,
                        dcount == 1 || dcount == 2,
                ;
                if m >= 1000 {
                    assert(m / 1000 == whole / 10 && (m / 100) % 10 == whole % 10)
                        by (nonlinear_arith)
                        requires
                            m == whole * 100 + fa * 10 + fb,
                            0 <= fa <= 9,
                            0 <= fb <= 9,
                            10 <= whole <= 99,
                    ;
                } else {
                    assert(m / 100 == whole) by (nonlinear_arith)
                        requires
                            m == whole * 100 + fa * 10 + fb,
                            0 <= fa <= 9,
                            0 <= fb <= 9,
                            0 <= whole <= 9,
                    ;
                }
                assert((m % 100) / 10 == fa && m % 10 == fb) by (nonlinear_arith)
                    requires
                        m == whole * 100 + fa * 10 + fb,
                        0 <= fa <= 9,
                        0 <= fb <= 9,
                        0 <= whole <= 99,
                ;
                assert(s@ =~= db_text(v as int));
            }
            Some(v)
        },
        _ => {
            proof {
                assert forall|v: i64| valid_db(v) implies s@ != db_text(v as int) by {
                    lemma_db_text_shape(v as int);
                }
            }
            None
        },
    }
}

} // verus!
