//! Small verified string utilities shared by the rest of the library.

use vstd::prelude::*;

verus! {

/// The views of a sequence of owned strings.
pub open spec fn str_views(s: Seq<String>) -> Seq<Seq<char>> {
    s.map_values(|x: String| x@)
}

/// Character-wise equality of two string slices.
pub fn str_eq(a: &str, b: &str) -> (r: bool)
    ensures
        r == (a@ == b@),
{
    let alen = a.unicode_len();
    let blen = b.unicode_len();
    if alen != blen {
        return false;
    }
    let mut i: usize = 0;
    while i < alen
        invariant
            alen == a@.len(),
            blen == b@.len(),
            alen == blen,
            i <= alen,
            forall|j: int| 0 <= j < i ==> a@[j] == b@[j],
        decreases alen - i,
    {
        if a.get_char(i) != b.get_char(i) {
            return false;
        }
        i += 1;
    }
    proof {
        assert(a@ =~= b@);
    }
    true
}

/// The character of one decimal digit.
pub open spec fn dec_digit(d: int) -> char {
    if d == 0 {
        '0'
    } else if d == 1 {
        '1'
    } else if d == 2 {
        '2'
    } else if d == 3 {
        '3'
    } else if d == 4 {
        '4'
    } else if d == 5 {
        '5'
    } else if d == 6 {
        '6'
    } else if d == 7 {
        '7'
    } else if d == 8 {
        '8'
    } else {
        '9'
    }
}

/// The decimal digits of `n`, most significant first, no sign and no padding.
pub open spec fn dec_spec(n: nat) -> Seq<char>
    decreases n,
{
    if n < 10 {
        seq![dec_digit(n as int)]
    } else {
        dec_spec(n / 10) + seq![dec_digit((n % 10) as int)]
    }
}

/// `n` spaces.
pub open spec fn spaces(n: nat) -> Seq<char> {
    Seq::new(n, |i: int| ' ')
}

/// `s`, left-padded with spaces to width `w`; unchanged when already wide enough.
pub open spec fn pad_left_spec(s: Seq<char>, w: nat) -> Seq<char> {
    if s.len() >= w {
        s
    } else {
        spaces((w - s.len()) as nat) + s
    }
}

pub open spec fn abs_spec(t: int) -> nat {
    if t < 0 {
        (-t) as nat
    } else {
        t as nat
    }
}

/// A value in tenths written with one decimal place: optional minus sign,
/// the integer part, a point, and the tenths digit.
pub open spec fn signed_tenths_spec(t: int) -> Seq<char> {
    let mag = abs_spec(t);
    (if t < 0 {
        seq!['-']
    } else {
        Seq::<char>::empty()
    }) + dec_spec(mag / 10) + seq!['.', dec_digit((mag % 10) as int)]
}

/// A temperature field: tenths of a degree with one decimal place,
/// right-aligned in five columns.
pub open spec fn temp_field_spec(t: int) -> Seq<char> {
    pad_left_spec(signed_tenths_spec(t), 5)
}

/// Round a value in tenths to a whole unit, ties to the even neighbour.
pub open spec fn round_half_even_spec(p: int) -> int {
    let q = p / 10;
    let r = p % 10;
    if r < 5 {
        q
    } else if r > 5 {
        q + 1
    } else if q % 2 == 0 {
        q
    } else {
        q + 1
    }
}

/// A percentage field: tenths of a percent rounded half-to-even to a whole
/// percent, right-aligned in three columns.
pub open spec fn pct_field_spec(p: int) -> Seq<char> {
    pad_left_spec(dec_spec(abs_spec(round_half_even_spec(p))), 3)
}

/// One decimal digit as a string slice.
fn digit_str(d: u64) -> (r: &'static str)
    requires
        d < 10,
    ensures
        r@ == seq![dec_digit(d as int)],
{
    proof {
        reveal_strlit("0");
        reveal_strlit("1");
        reveal_strlit("2");
        reveal_strlit("3");
        reveal_strlit("4");
        reveal_strlit("5");
        reveal_strlit("6");
        reveal_strlit("7");
        reveal_strlit("8");
        reveal_strlit("9");
    }
    if d == 0 {
        assert("0"@ =~= seq![dec_digit(0)]);
        "0"
    } else if d == 1 {
        assert("1"@ =~= seq![dec_digit(1)]);
        "1"
    } else if d == 2 {
        assert("2"@ =~= seq![dec_digit(2)]);
        "2"
    } else if d == 3 {
        assert("3"@ =~= seq![dec_digit(3)]);
        "3"
    } else if d == 4 {
        assert("4"@ =~= seq![dec_digit(4)]);
        "4"
    } else if d == 5 {
        assert("5"@ =~= seq![dec_digit(5)]);
        "5"
    } else if d == 6 {
        assert("6"@ =~= seq![dec_digit(6)]);
        "6"
    } else if d == 7 {
        assert("7"@ =~= seq![dec_digit(7)]);
        "7"
    } else if d == 8 {
        assert("8"@ =~= seq![dec_digit(8)]);
        "8"
    } else {
        assert("9"@ =~= seq![dec_digit(9)]);
        "9"
    }
}

/// The decimal digits of `n`.
pub fn dec(n: u64) -> (s: String)
    ensures
        s@ == dec_spec(n as nat),
    decreases n,
{
    if n < 10 {
        String::from_str(digit_str(n))
    } else {
        let mut s = dec(n / 10);
        s.append(digit_str(n % 10));
        s
    }
}

/// Left-pad `s` with spaces to width `w`.
pub fn pad_left(s: String, w: usize) -> (r: String)
    ensures
        r@ == pad_left_spec(s@, w as nat),
{
    let n = s.as_str().unicode_len();
    if n >= w {
        return s;
    }
    proof {
        reveal_strlit(" ");
    }
    let mut r = String::new();
    let mut i: usize = 0;
    while i < w - n
        invariant
            n == s@.len(),
            n < w,
            i <= w - n,
            r@ =~= spaces(i as nat),
        decreases w - n - i,
    {
        r.append(" ");
        proof {
            reveal_strlit(" ");
            assert(r@ =~= spaces((i + 1) as nat));
        }
        i += 1;
    }
    proof {
        assert(spaces((w - n) as nat) + s@ =~= pad_left_spec(s@, w as nat));
    }
    r.concat(s.as_str())
}

/// A temperature in tenths of a degree, one decimal place, five columns.
pub fn format_temp(t: i64) -> (r: String)
    ensures
        r@ == temp_field_spec(t as int),
{
    let mag: u64 = if t < 0 {
        (-(t as i128)) as u64
    } else {
        t as u64
    };
    proof {
        assert(mag as nat == abs_spec(t as int));
        reveal_strlit("-");
        reveal_strlit(".");
    }
    let mut s = String::new();
    if t < 0 {
        s.append("-");
        assert(s@ =~= seq!['-']);
    }
    let ip = dec(mag / 10);
    s.append(ip.as_str());
    s.append(".");
    s.append(digit_str(mag % 10));
    proof {
        assert(s@ =~= signed_tenths_spec(t as int));
    }
    pad_left(s, 5)
}

/// A precipitation probability in tenths of a percent, rounded half-to-even
/// to a whole percent, three columns.
pub fn format_percent(p: i64) -> (r: String)
    requires
        0 <= p,
    ensures
        r@ == pct_field_spec(p as int),
{
    let q = p / 10;
    let r0 = p % 10;
    let w: i64 = if r0 < 5 {
        q
    } else if r0 > 5 {
        q + 1
    } else if q % 2 == 0 {
        q
    } else {
        q + 1
    };
    proof {
        assert(w == round_half_even_spec(p as int));
        assert(w as nat == abs_spec(round_half_even_spec(p as int)));
    }
    pad_left(dec(w as u64), 3)
}

/// Whether one of the strings in `v` has the same characters as `t`.
pub fn contains_str(v: &Vec<String>, t: &str) -> (r: bool)
    ensures
        r == str_views(v@).contains(t@),
{
    let mut i: usize = 0;
    while i < v.len()
        invariant
            i <= v@.len(),
            forall|j: int| 0 <= j < i ==> str_views(v@)[j] != t@,
        decreases v@.len() - i,
    {
        if str_eq(v[i].as_str(), t) {
            assert(str_views(v@)[i as int] == t@);
            return true;
        }
        i += 1;
    }
    assert(forall|j: int| 0 <= j < str_views(v@).len() ==> str_views(v@)[j] != t@);
    false
}

} // verus!
