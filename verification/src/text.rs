//! Text: searching in character sequences and writing numbers in decimal.

use vstd::prelude::*;

verus! {

/// `pat` stands in `s` at place `i`.
pub open spec fn matches_at(s: Seq<char>, pat: Seq<char>, i: int) -> bool {
    0 <= i && i + pat.len() <= s.len() && s.subrange(i, i + pat.len()) == pat
}

/// The first place at or after `from` at which `pat` stands in `s`.
pub open spec fn find(s: Seq<char>, pat: Seq<char>, from: int) -> Option<int>
    decreases s.len() - from + 1,
{
    if from < 0 || s.len() - from < pat.len() {
        None
    } else if matches_at(s, pat, from) {
        Some(from)
    } else {
        find(s, pat, from + 1)
    }
}

/// The place of the `n`-th occurrence of `c` in `s` at or after `from`,
/// counted from one; the length of `s` where there are fewer.
pub open spec fn nth_occurrence(s: Seq<char>, c: char, from: int, n: nat) -> int
    decreases s.len() - from,
{
    if from < 0 || from >= s.len() || n == 0 {
        s.len() as int
    } else if s[from] == c {
        if n == 1 {
            from
        } else {
            nth_occurrence(s, c, from + 1, (n - 1) as nat)
        }
    } else {
        nth_occurrence(s, c, from + 1, n)
    }
}

/// `s` ends with `suffix`.
pub open spec fn ends_with(s: Seq<char>, suffix: Seq<char>) -> bool {
    suffix.len() <= s.len() && s.subrange(s.len() - suffix.len(), s.len() as int) == suffix
}

/// The decimal digit of a number below ten.
pub open spec fn digit(d: nat) -> char {
    if d == 0 {
        '0'
    } else if d == 1 {
        '1'
    } else if d == 2 {
        '2'
    } else if d == 3 {
        '3'
    } else if d == 4 {
        '4'
    } else if d == 5 {
        '5'
    } else if d == 6 {
        '6'
    } else if d == 7 {
        '7'
    } else if d == 8 {
        '8'
    } else {
        '9'
    }
}

/// The number in decimal, without leading zeros.
pub open spec fn decimal(n: nat) -> Seq<char>
    decreases n,
{
    if n < 10 {
        seq![digit(n)]
    } else {
        decimal(n / 10).push(digit(n % 10))
    }
}

/// The characters of `s`.
pub fn chars_of(s: &str) -> (r: Vec<char>)
    ensures
        r@ == s@,
{
    let mut out: Vec<char> = Vec::new();
    for c in it: s.chars()
        invariant
            out@ == it.seq().take(it.index() as int),
            it.seq() == s@,
    {
        out.push(c);
        proof {
            assert(out@ =~= it.seq().take(it.index() + 1));
        }
    }
    proof {
        assert(out@ =~= s@);
    }
    out
}

/// Whether `pat` stands in `s` at place `i`.
pub fn is_match_at(s: &Vec<char>, pat: &Vec<char>, i: usize) -> (r: bool)
    requires
        i + pat@.len() <= s@.len(),
    ensures
        r == matches_at(s@, pat@, i as int),
{
    let n: usize = s.len();
    let mut j: usize = 0;
    while j < pat.len()
        invariant
            j <= pat@.len(),
            n == s@.len(),
            i + pat@.len() <= s@.len(),
            forall|k: int| 0 <= k < j ==> s@[i + k] == pat@[k],
        decreases pat@.len() - j,
    {
        if s[i + j] != pat[j] {
            proof {
                assert(s@.subrange(i as int, i + pat@.len())[j as int] == s@[i + j]);
            }
            return false;
        }
        j = j + 1;
    }
    proof {
        assert(s@.subrange(i as int, i + pat@.len()) =~= pat@);
    }
    true
}

/// The first place at or after `from` at which `pat` stands in `s`.
pub fn find_from(s: &Vec<char>, pat: &Vec<char>, from: usize) -> (r: Option<usize>)
    ensures
        r is None <==> find(s@, pat@, from as int) is None,
        r is Some ==> find(s@, pat@, from as int) == Some(r->0 as int) && from <= r->0 && r->0
            + pat@.len() <= s@.len(),
{
    if pat.len() > s.len() {
        return None;
    }
    let last: usize = s.len() - pat.len();
    let mut i: usize = from;
    while i <= last
        invariant
            from <= i,
            last + pat@.len() == s@.len(),
            find(s@, pat@, from as int) == find(s@, pat@, i as int),
        decreases last + 1 - i,
    {
        if is_match_at(s, pat, i) {
            return Some(i);
        }
        if i == last {
            proof {
                assert(find(s@, pat@, i + 1) is None);
            }
            return None;
        }
        i = i + 1;
    }
    None
}

/// The place of the `n`-th occurrence of `c` in `s`, counted from one; the
/// length of `s` where there are fewer.
pub fn find_nth(s: &Vec<char>, c: char, n: usize) -> (r: usize)
    ensures
        r == nth_occurrence(s@, c, 0, n as nat),
        r <= s@.len(),
{
    if n == 0 {
        return s.len();
    }
    let mut left: usize = n;
    let mut i: usize = 0;
    while i < s.len()
        invariant
            i <= s@.len(),
            left >= 1,
            nth_occurrence(s@, c, 0, n as nat) == nth_occurrence(s@, c, i as int, left as nat),
        decreases s@.len() - i,
    {
        if s[i] == c {
            if left == 1 {
                return i;
            }
            left = left - 1;
        }
        i = i + 1;
    }
    s.len()
}

/// Whether `s` ends with `suffix`.
pub fn has_suffix(s: &Vec<char>, suffix: &Vec<char>) -> (r: bool)
    ensures
        r == ends_with(s@, suffix@),
{
    if suffix.len() > s.len() {
        return false;
    }
    is_match_at(s, suffix, s.len() - suffix.len())
}

/// The digit of `d` as text.
pub fn digit_text(d: u8) -> (r: &'static str)
    requires
        d < 10,
    ensures
        r@ == seq![digit(d as nat)],
{
    proof {
        reveal_strlit("0");
        reveal_strlit("1");
        reveal_strlit("2");
        reveal_strlit("3");
        reveal_strlit("4");
        reveal_strlit("5");
        reveal_strlit("6");
        reveal_strlit("7");
        reveal_strlit("8");
        reveal_strlit("9");
    }
    let r: &'static str = match d {
        0 => "0",
        1 => "1",
        2 => "2",
        3 => "3",
        4 => "4",
        5 => "5",
        6 => "6",
        7 => "7",
        8 => "8",
        _ => "9",
    };
    proof {
        assert(r@ =~= seq![digit(d as nat)]);
    }
    r
}

/// The number in decimal, without leading zeros.
pub fn decimal_string(n: u128) -> (r: String)
    ensures
        r@ == decimal(n as nat),
    decreases n,
{
    if n < 10 {
        String::from_str(digit_text(n as u8))
    } else {
        let mut s: String = decimal_string(n / 10);
        s.append(digit_text((n % 10) as u8));
        proof {
            assert(s@ =~= decimal(n as nat));
        }
        s
    }
}

} // verus!
