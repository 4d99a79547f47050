//! Exact decimal rendering and string joining.

use vstd::prelude::*;

verus! {

/// The decimal digit character for a value below ten.
pub open spec fn digit_char(d: int) -> char {
    if d == 0 {
        '0'
    } else if d == 1 {
        '1'
    } else if d == 2 {
        '2'
    } else if d == 3 {
        '3'
    } else if d == 4 {
        '4'
    } else if d == 5 {
        '5'
    } else if d == 6 {
        '6'
    } else if d == 7 {
        '7'
    } else if d == 8 {
        '8'
    } else {
        '9'
    }
}

/// Decimal digits of a non-negative value, most significant first.
pub open spec fn dec_str(n: int) -> Seq<char>
    recommends
        n >= 0,
    decreases n,
{
    if n < 10 {
        seq![digit_char(n)]
    } else {
        dec_str(n / 10) + seq![digit_char(n % 10)]
    }
}

/// Decimal rendering of a possibly negative value, with a leading minus sign.
pub open spec fn int_dec_str(n: int) -> Seq<char> {
    if n < 0 {
        seq!['-'] + dec_str(-n)
    } else {
        dec_str(n)
    }
}

/// One decimal digit as a string slice.
fn digit_str(d: u64) -> (r: &'static str)
    requires
        d < 10,
    ensures
        r@ == seq![digit_char(d as int)],
{
    proof {
        reveal_strlit("0");
        reveal_strlit("1");
        reveal_strlit("2");
        reveal_strlit("3");
        reveal_strlit("4");
        reveal_strlit("5");
        reveal_strlit("6");
        reveal_strlit("7");
        reveal_strlit("8");
        reveal_strlit("9");
    }
    let r: &'static str = match d {
        0 => "0",
        1 => "1",
        2 => "2",
        3 => "3",
        4 => "4",
        5 => "5",
        6 => "6",
        7 => "7",
        8 => "8",
        _ => "9",
    };
    proof {
        assert(r@ =~= seq![digit_char(d as int)]);
    }
    r
}

/// Render a value as decimal digits, exactly.
pub fn u128_to_dec(n: u128) -> (s: String)
    ensures
        s@ == dec_str(n as int),
    decreases n,
{
    if n < 10 {
        let mut s = String::new();
        s.append(digit_str(n as u64));
        proof {
            assert(s@ =~= dec_str(n as int));
        }
        s
    } else {
        let mut s = u128_to_dec(n / 10);
        s.append(digit_str((n % 10) as u64));
        proof {
            assert(s@ =~= dec_str(n as int));
        }
        s
    }
}

/// Render a 64-bit value as decimal digits, exactly.
pub fn u64_to_dec(n: u64) -> (s: String)
    ensures
        s@ == dec_str(n as int),
{
    u128_to_dec(n as u128)
}

/// Render a signed value as decimal digits with an optional minus sign.
pub fn i64_to_dec(n: i64) -> (s: String)
    ensures
        s@ == int_dec_str(n as int),
{
    if n >= 0 {
        u128_to_dec(n as u128)
    } else {
        let mut s = String::new();
        proof {
            reveal_strlit("-");
        }
        s.append("-");
        let magnitude: u128 = if n == i64::MIN {
            9_223_372_036_854_775_808u128
        } else {
            (-n) as u128
        };
        let digits = u128_to_dec(magnitude);
        s.append(digits.as_str());
        proof {
            assert("-"@ =~= seq!['-']);
            assert(s@ =~= int_dec_str(n as int));
        }
        s
    }
}

/// The texts joined with a separator between consecutive texts.
pub open spec fn spec_join(parts: Seq<Seq<char>>, sep: Seq<char>) -> Seq<char>
    decreases parts.len(),
{
    if parts.len() == 0 {
        Seq::empty()
    } else if parts.len() == 1 {
        parts[0]
    } else {
        spec_join(parts.drop_last(), sep) + sep + parts.last()
    }
}

/// The views of a list of strings, in order.
pub open spec fn views_of(parts: Seq<String>) -> Seq<Seq<char>> {
    parts.map_values(|s: String| s@)
}

/// Join parts with `", "` between consecutive parts, exactly.
pub fn join_comma(parts: &Vec<String>) -> (r: String)
    ensures
        r@ == spec_join(views_of(parts@), ", "@),
{
    let mut r = String::new();
    let n: usize = parts.len();
    proof {
        assert(views_of(parts@.take(0)) =~= Seq::<Seq<char>>::empty());
    }
    for i in 0..n
        invariant
            n == parts@.len(),
            r@ == spec_join(views_of(parts@.take(i as int)), ", "@),
    {
        proof {
            crate::seqs::lemma_take_step(parts@, i as int);
            assert(views_of(parts@.take(i + 1)).drop_last() =~= views_of(parts@.take(i as int)));
            assert(views_of(parts@.take(i + 1)).last() == parts@[i as int]@);
        }
        if i > 0 {
            r.append(", ");
        }
        r.append(parts[i].as_str());
        proof {
            if i == 0 {
                assert(views_of(parts@.take(1)).len() == 1);
                assert(r@ =~= spec_join(views_of(parts@.take(1)), ", "@));
            } else {
                assert(r@ =~= spec_join(views_of(parts@.take(i + 1)), ", "@));
            }
        }
    }
    proof {
        assert(parts@.take(n as int) =~= parts@);
    }
    r
}

} // verus!
