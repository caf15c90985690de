//! The computing part of location resolution: a resolved address string is
//! reduced to its short display name, the first comma-separated segment
//! with surrounding blanks removed. The network lookup itself stays outside
//! the library and hands the address string in.

use vstd::prelude::*;

verus! {

pub open spec fn is_blank(c: char) -> bool {
    c == ' ' || c == '\t' || c == '\n' || c == '\r'
}

/// The position of the first comma, or the length when there is none.
pub open spec fn comma_pos(s: Seq<char>) -> int
    decreases s.len(),
{
    if s.len() == 0 {
        0
    } else if s[0] == ',' {
        0
    } else {
        1 + comma_pos(s.drop_first())
    }
}

/// The number of leading blanks.
pub open spec fn lead_blanks(s: Seq<char>) -> int
    decreases s.len(),
{
    if s.len() == 0 {
        0
    } else if is_blank(s[0]) {
        1 + lead_blanks(s.drop_first())
    } else {
        0
    }
}

/// The number of trailing blanks.
pub open spec fn tail_blanks(s: Seq<char>) -> int
    decreases s.len(),
{
    if s.len() == 0 {
        0
    } else if is_blank(s.last()) {
        1 + tail_blanks(s.drop_last())
    } else {
        0
    }
}

/// Everything before the first comma.
pub open spec fn comma_prefix(s: Seq<char>) -> Seq<char> {
    s.subrange(0, comma_pos(s))
}

/// `s` without its leading and trailing blanks.
pub open spec fn trim_spec(s: Seq<char>) -> Seq<char> {
    if lead_blanks(s) == s.len() {
        Seq::empty()
    } else {
        s.subrange(lead_blanks(s), s.len() - tail_blanks(s))
    }
}

/// The short display name of an address string.
pub open spec fn name_prefix_spec(s: Seq<char>) -> Seq<char> {
    trim_spec(comma_prefix(s))
}

proof fn lemma_comma_pos(s: Seq<char>)
    ensures
        0 <= comma_pos(s) <= s.len(),
        forall|i: int| 0 <= i < comma_pos(s) ==> s[i] != ',',
        comma_pos(s) < s.len() ==> s[comma_pos(s)] == ',',
    decreases s.len(),
{
    if s.len() == 0 {
    } else if s[0] == ',' {
    } else {
        let rest = s.drop_first();
        lemma_comma_pos(rest);
        assert forall|i: int| 0 <= i < comma_pos(s) implies s[i] != ',' by {
            if i > 0 {
                assert(rest[i - 1] == s[i]);
            }
        }
        if comma_pos(s) < s.len() {
            assert(rest[comma_pos(rest)] == s[comma_pos(s)]);
        }
    }
}

proof fn lemma_lead_blanks(s: Seq<char>)
    ensures
        0 <= lead_blanks(s) <= s.len(),
        forall|i: int| 0 <= i < lead_blanks(s) ==> is_blank(s[i]),
        lead_blanks(s) < s.len() ==> !is_blank(s[lead_blanks(s)]),
    decreases s.len(),
{
    if s.len() == 0 {
    } else if is_blank(s[0]) {
        let rest = s.drop_first();
        lemma_lead_blanks(rest);
        assert forall|i: int| 0 <= i < lead_blanks(s) implies is_blank(s[i]) by {
            if i > 0 {
                assert(rest[i - 1] == s[i]);
            }
        }
        if lead_blanks(s) < s.len() {
            assert(rest[lead_blanks(rest)] == s[lead_blanks(s)]);
        }
    }
}

proof fn lemma_tail_blanks(s: Seq<char>)
    ensures
        0 <= tail_blanks(s) <= s.len(),
        forall|i: int| s.len() - tail_blanks(s) <= i < s.len() ==> is_blank(s[i]),
        tail_blanks(s) < s.len() ==> !is_blank(s[s.len() - tail_blanks(s) - 1]),
    decreases s.len(),
{
    if s.len() == 0 {
    } else if is_blank(s.last()) {
        let rest = s.drop_last();
        lemma_tail_blanks(rest);
        assert(forall|i: int| 0 <= i < rest.len() ==> rest[i] == s[i]);
    }
}

fn is_blank_exec(ch: char) -> (r: bool)
    ensures
        r == is_blank(ch),
{
    ch == ' ' || ch == '\t' || ch == '\n' || ch == '\r'
}

/// The short display name of an address string: the first comma-separated
/// segment, with surrounding blanks removed.
pub fn name_prefix(s: &str) -> (r: String)
    ensures
        r@ == name_prefix_spec(s@),
{
    let n = s.unicode_len();
    // the first comma
    let mut c: usize = n;
    let mut i: usize = 0;
    while i < n
        invariant
            i <= n,
            n == s@.len(),
            c == n || (c < i && s@[c as int] == ','),
            forall|j: int| 0 <= j < i && j < c ==> s@[j] != ',',
        decreases n - i,
    {
        if c == n && s.get_char(i) == ',' {
            c = i;
        }
        i += 1;
    }
    proof {
        lemma_comma_pos(s@);
        if comma_pos(s@) < c {
            assert(s@[comma_pos(s@)] != ',');
        }
        if c < comma_pos(s@) {
            assert(s@[c as int] != ',');
        }
        assert(c == comma_pos(s@));
    }
    let t = s.substring_char(0, c);
    proof {
        assert(t@ == comma_prefix(s@));
    }
    let m = c;
    let mut a: usize = 0;
    while a < m && is_blank_exec(t.get_char(a))
        invariant
            a <= m,
            m == t@.len(),
            forall|j: int| 0 <= j < a ==> is_blank(t@[j]),
        decreases m - a,
    {
        a += 1;
    }
    proof {
        lemma_lead_blanks(t@);
        if lead_blanks(t@) < a {
            assert(is_blank(t@[lead_blanks(t@)]));
        }
        if a < lead_blanks(t@) {
            assert(is_blank(t@[a as int]));
        }
        assert(a == lead_blanks(t@));
    }
    if a == m {
        proof {
            assert(trim_spec(t@) =~= Seq::<char>::empty());
            reveal_strlit("");
        }
        return String::from_str("");
    }
    let mut b: usize = m;
    while b > a && is_blank_exec(t.get_char(b - 1))
        invariant
            a <= b <= m,
            m == t@.len(),
            a < m,
            !is_blank(t@[a as int]),
            forall|j: int| b <= j < m ==> is_blank(t@[j]),
        decreases b,
    {
        b -= 1;
    }
    proof {
        lemma_tail_blanks(t@);
        if b == a {
            assert(is_blank(t@[a as int]));
        }
        assert(b > a);
        assert(!is_blank(t@[b - 1]));
        let tb = tail_blanks(t@);
        if m - b < tb {
            assert(is_blank(t@[b - 1]));
        }
        if m - b > tb {
            assert(tb < t@.len());
            assert(m - tb - 1 >= b);
            assert(is_blank(t@[m - tb - 1]));
        }
        assert(m - b == tb);
        assert(t@.subrange(a as int, b as int) == trim_spec(t@));
    }
    let w = t.substring_char(a, b);
    String::from_str(w)
}

} // verus!
