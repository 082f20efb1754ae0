use vstd::prelude::*;
use vstd::string::*;

verus! {

/// The upper-case hexadecimal digit for a value below sixteen (also the
/// decimal digit for a value below ten).
pub open spec fn hex_digit_char(n: nat) -> char
    recommends
        n < 16,
{
    if n < 10 {
        ((n + 48) as u8) as char
    } else {
        ((n + 55) as u8) as char
    }
}

/// A one-character string holding the upper-case hexadecimal digit of `n`.
pub fn hex_digit_str(n: u8) -> (s: &'static str)
    requires
        n < 16,
    ensures
        s@ == seq![hex_digit_char(n as nat)],
{
    proof {
        reveal_strlit("0");
        reveal_strlit("1");
        reveal_strlit("2");
        reveal_strlit("3");
        reveal_strlit("4");
        reveal_strlit("5");
        reveal_strlit("6");
        reveal_strlit("7");
        reveal_strlit("8");
        reveal_strlit("9");
        reveal_strlit("A");
        reveal_strlit("B");
        reveal_strlit("C");
        reveal_strlit("D");
        reveal_strlit("E");
        reveal_strlit("F");
    }
    match n {
        0 => "0",
        1 => "1",
        2 => "2",
        3 => "3",
        4 => "4",
        5 => "5",
        6 => "6",
        7 => "7",
        8 => "8",
        9 => "9",
        10 => "A",
        11 => "B",
        12 => "C",
        13 => "D",
        14 => "E",
        15 => "F",
        _ => "F",
    }
}

/// The decimal representation of `n`, most significant digit first, without
/// leading zeros.
pub open spec fn decimal(n: nat) -> Seq<char>
    decreases n,
{
    if n < 10 {
        seq![hex_digit_char(n)]
    } else {
        decimal(n / 10) + seq![hex_digit_char(n % 10)]
    }
}

/// Appends the decimal representation of `n` to `s`.
pub fn push_decimal(s: &mut String, n: u64)
    ensures
        final(s)@ == old(s)@ + decimal(n as nat),
    decreases n,
{
    if n >= 10 {
        push_decimal(s, n / 10);
    }
    s.append(hex_digit_str((n % 10) as u8));
}

/// The decimal representation of `n` as a new string.
pub fn decimal_string(n: u64) -> (s: String)
    ensures
        s@ == decimal(n as nat),
{
    let mut s = String::new();
    push_decimal(&mut s, n);
    proof {
        assert(s@ =~= decimal(n as nat));
    }
    s
}

/// Whether two string slices hold the same characters.
pub fn same_text(a: &str, b: &str) -> (eq: bool)
    ensures
        eq == (a@ == b@),
{
    let a_owned = a.to_owned();
    let b_owned = b.to_owned();
    a_owned == b_owned
}

/// `cs` with every leading `#` removed.
pub open spec fn trim_hashes(cs: Seq<char>) -> Seq<char>
    decreases cs.len(),
{
    if cs.len() > 0 && cs[0] == '#' {
        trim_hashes(cs.drop_first())
    } else {
        cs
    }
}

/// Removing leading `#`s is skipping the first `k` characters when exactly
/// those are `#`.
pub proof fn lemma_trim_hashes_skip(cs: Seq<char>, k: int)
    requires
        0 <= k <= cs.len(),
        forall|j: int| 0 <= j < k ==> cs[j] == '#',
        k == cs.len() || cs[k] != '#',
    ensures
        trim_hashes(cs) == cs.skip(k),
    decreases k,
{
    if k == 0 {
        assert(cs.skip(0) =~= cs);
    } else {
        let rest = cs.drop_first();
        assert forall|j: int| 0 <= j < k - 1 implies rest[j] == '#' by {
            assert(rest[j] == cs[j + 1]);
        }
        if k - 1 < rest.len() {
            assert(rest[k - 1] == cs[k]);
        }
        lemma_trim_hashes_skip(rest, k - 1);
        assert(rest.skip(k - 1) =~= cs.skip(k));
    }
}

/// The part of `s` after its leading `#` characters.
pub fn without_leading_hashes(s: &str) -> (t: &str)
    ensures
        t@ == trim_hashes(s@),
{
    let n = s.unicode_len();
    let mut k: usize = 0;
    loop
        invariant
            n == s@.len(),
            k <= n,
            forall|j: int| 0 <= j < k ==> s@[j] == '#',
        ensures
            k <= n,
            forall|j: int| 0 <= j < k ==> s@[j] == '#',
            k == n || s@[k as int] != '#',
        decreases n - k,
    {
        if k == n {
            break;
        }
        if s.get_char(k) != '#' {
            break;
        }
        k = k + 1;
    }
    proof {
        lemma_trim_hashes_skip(s@, k as int);
        assert(s@.subrange(k as int, n as int) =~= s@.skip(k as int));
    }
    s.substring_char(k, n)
}

} // verus!
