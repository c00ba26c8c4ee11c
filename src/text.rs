use vstd::prelude::*;
use vstd::string::*;

verus! {

/// The character of a decimal digit.
pub open spec fn digit_char(d: nat) -> char {
    if d == 0 { '0' }
    else if d == 1 { '1' }
    else if d == 2 { '2' }
    else if d == 3 { '3' }
    else if d == 4 { '4' }
    else if d == 5 { '5' }
    else if d == 6 { '6' }
    else if d == 7 { '7' }
    else if d == 8 { '8' }
    else { '9' }
}

/// A natural number in decimal, without leading zeros.
pub open spec fn decimal(n: nat) -> Seq<char>
    decreases n,
{
    if n < 10 {
        seq![digit_char(n)]
    } else {
        decimal(n / 10).push(digit_char(n % 10))
    }
}

/// An integer in decimal, with a leading `-` when it is negative.
pub open spec fn signed_decimal(n: int) -> Seq<char> {
    if n < 0 {
        seq!['-'] + decimal((-n) as nat)
    } else {
        decimal(n as nat)
    }
}

/// The words, one space between each two.
pub open spec fn joined(ws: Seq<Seq<char>>) -> Seq<char>
    decreases ws.len(),
{
    if ws.len() == 0 {
        Seq::empty()
    } else if ws.len() == 1 {
        ws[0]
    } else {
        joined(ws.drop_last()) + seq![' '] + ws.last()
    }
}

fn digit_text(d: u64) -> (r: String)
    requires
        d < 10,
    ensures
        r@ == seq![digit_char(d as nat)],
{
    proof {
        reveal_strlit("0");
        reveal_strlit("1");
        reveal_strlit("2");
        reveal_strlit("3");
        reveal_strlit("4");
        reveal_strlit("5");
        reveal_strlit("6");
        reveal_strlit("7");
        reveal_strlit("8");
        reveal_strlit("9");
    }
    let r = if d == 0 {
        String::from_str("0")
    } else if d == 1 {
        String::from_str("1")
    } else if d == 2 {
        String::from_str("2")
    } else if d == 3 {
        String::from_str("3")
    } else if d == 4 {
        String::from_str("4")
    } else if d == 5 {
        String::from_str("5")
    } else if d == 6 {
        String::from_str("6")
    } else if d == 7 {
        String::from_str("7")
    } else if d == 8 {
        String::from_str("8")
    } else {
        String::from_str("9")
    };
    assert(r@ =~= seq![digit_char(d as nat)]);
    r
}

/// Writes a natural number in decimal.
pub fn decimal_text(n: u64) -> (r: String)
    ensures
        r@ == decimal(n as nat),
{
    let mut m: u64 = n / 10;
    let mut s = digit_text(n % 10);
    proof {
        if n < 10 {
            assert(s@ == decimal(n as nat));
        }
    }
    while m > 0
        invariant
            m == 0 ==> s@ == decimal(n as nat),
            m > 0 ==> decimal(n as nat) == decimal(m as nat) + s@,
        decreases m,
    {
        let d = digit_text(m % 10);
        let ghost old_s = s@;
        s = d.concat(s.as_str());
        proof {
            if m < 10 {
                assert(decimal(m as nat) =~= d@);
                assert(s@ == decimal(n as nat));
            } else {
                assert(decimal(m as nat) == decimal((m / 10) as nat).push(digit_char((m % 10) as nat)));
                assert(decimal(m as nat) + old_s =~= decimal((m / 10) as nat) + s@);
            }
        }
        m = m / 10;
    }
    s
}

/// Writes an integer in decimal.
pub fn signed_decimal_text(n: i32) -> (r: String)
    ensures
        r@ == signed_decimal(n as int),
{
    if n < 0 {
        let magnitude: u64 = (-(n as i64)) as u64;
        let digits = decimal_text(magnitude);
        proof {
            reveal_strlit("-");
        }
        String::from_str("-").concat(digits.as_str())
    } else {
        decimal_text(n as u64)
    }
}

/// Joins the words with one space between each two.
pub fn join_words(ws: &Vec<String>) -> (r: String)
    ensures
        r@ == joined(ws@.map_values(|s: String| s@)),
{
    let ghost v = ws@.map_values(|s: String| s@);
    let mut r = String::new();
    let mut i: usize = 0;
    proof {
        assert(v.take(0) =~= Seq::<Seq<char>>::empty());
    }
    while i < ws.len()
        invariant
            0 <= i <= ws.len(),
            v == ws@.map_values(|s: String| s@),
            r@ == joined(v.take(i as int)),
        decreases ws.len() - i,
    {
        assert(v.take(i + 1).drop_last() =~= v.take(i as int));
        let ghost before = r@;
        if i > 0 {
            proof {
                reveal_strlit(" ");
            }
            r.append(" ");
            assert(r@ =~= before + seq![' ']);
        }
        r.append(ws[i].as_str());
        proof {
            if i == 0 {
                assert(r@ =~= joined(v.take(1)));
            } else {
                assert(v.take(i + 1).last() == ws@[i as int]@);
                assert(joined(v.take(i + 1)) == joined(v.take(i as int)) + seq![' '] + ws@[i as int]@);
                assert(r@ =~= joined(v.take(i + 1)));
            }
        }
        i = i + 1;
    }
    assert(v.take(i as int) =~= v);
    r
}

} // verus!
