//! Character-level string utilities: equality, substring search, prefix
//! tests and decimal rendering, each with an exact specification over the
//! string views.

use vstd::prelude::*;

verus! {

/// True when the characters of `needle` occur contiguously in `hay`
/// starting at position `at`.
pub open spec fn occurs_at(hay: Seq<char>, needle: Seq<char>, at: int) -> bool {
    0 <= at && at + needle.len() <= hay.len() && hay.subrange(
        at,
        at + needle.len(),
    ) == needle
}

/// True when `needle` occurs somewhere in `hay`.
pub open spec fn contains_seq(hay: Seq<char>, needle: Seq<char>) -> bool {
    exists|at: int| occurs_at(hay, needle, at)
}

/// Character-for-character equality of two string slices.
pub fn str_eq(a: &str, b: &str) -> (r: bool)
    ensures
        r == (a@ == b@),
{
    let la = a.unicode_len();
    let lb = b.unicode_len();
    if la != lb {
        proof {
            assert(a@ != b@) by {
                if a@ == b@ {
                    assert(a@.len() == b@.len());
                }
            }
        }
        return false;
    }
    let mut i: usize = 0;
    while i < la
        invariant
            la == a@.len(),
            la == b@.len(),
            i <= la,
            forall|j: int| 0 <= j < i ==> a@[j] == b@[j],
        decreases la - i,
    {
        if a.get_char(i) != b.get_char(i) {
            return false;
        }
        i += 1;
    }
    proof {
        assert(a@ =~= b@);
    }
    true
}

/// True exactly when `needle` occurs at position `at` of `hay`.
pub fn occurs_at_exec(hay: &str, needle: &str, at: usize) -> (r: bool)
    ensures
        r == occurs_at(hay@, needle@, at as int),
{
    let lh = hay.unicode_len();
    let ln = needle.unicode_len();
    if at > lh || ln > lh - at {
        return false;
    }
    let mut i: usize = 0;
    while i < ln
        invariant
            lh == hay@.len(),
            ln == needle@.len(),
            at + ln <= lh,
            i <= ln,
            forall|j: int| 0 <= j < i ==> hay@[at + j] == needle@[j],
        decreases ln - i,
    {
        if hay.get_char(at + i) != needle.get_char(i) {
            proof {
                assert(!occurs_at(hay@, needle@, at as int)) by {
                    if occurs_at(hay@, needle@, at as int) {
                        assert(hay@.subrange(at as int, at + needle@.len())[i as int] == needle@[i as int]);
                    }
                }
            }
            return false;
        }
        i += 1;
    }
    proof {
        assert(hay@.subrange(at as int, at + needle@.len()) =~= needle@);
    }
    true
}

/// True exactly when `needle` occurs somewhere in `hay`.
pub fn contains_str(hay: &str, needle: &str) -> (r: bool)
    ensures
        r == contains_seq(hay@, needle@),
{
    let lh = hay.unicode_len();
    let ln = needle.unicode_len();
    if ln > lh {
        return false;
    }
    if ln == 0 {
        proof {
            assert(hay@.subrange(0, 0) =~= needle@);
            assert(occurs_at(hay@, needle@, 0));
        }
        return true;
    }
    let mut at: usize = 0;
    while at <= lh - ln
        invariant
            lh == hay@.len(),
            ln == needle@.len(),
            0 < ln <= lh,
            at <= lh - ln + 1,
            forall|k: int| 0 <= k < at ==> !occurs_at(hay@, needle@, k),
        decreases lh - ln + 1 - at,
    {
        if occurs_at_exec(hay, needle, at) {
            return true;
        }
        at += 1;
    }
    proof {
        assert(!contains_seq(hay@, needle@)) by {
            if contains_seq(hay@, needle@) {
                let k = choose|k: int| occurs_at(hay@, needle@, k);
                assert(!occurs_at(hay@, needle@, k));
            }
        }
    }
    false
}

/// The character of one decimal digit.
pub open spec fn digit_char(d: int) -> char {
    if d == 0 {
        '0'
    } else if d == 1 {
        '1'
    } else if d == 2 {
        '2'
    } else if d == 3 {
        '3'
    } else if d == 4 {
        '4'
    } else if d == 5 {
        '5'
    } else if d == 6 {
        '6'
    } else if d == 7 {
        '7'
    } else if d == 8 {
        '8'
    } else {
        '9'
    }
}

/// The decimal rendering of a number, most significant digit first.
pub open spec fn dec_digits(n: nat) -> Seq<char>
    decreases n,
{
    if n < 10 {
        seq![digit_char(n as int)]
    } else {
        dec_digits(n / 10) + seq![digit_char((n % 10) as int)]
    }
}

/// One decimal digit as a string.
fn digit_str(d: usize) -> (r: String)
    requires
        d < 10,
    ensures
        r@ == seq![digit_char(d as int)],
{
    proof {
        reveal_strlit("0123456789");
    }
    let digits = "0123456789";
    let s = digits.substring_char(d, d + 1);
    proof {
        assert(s@ =~= seq![digit_char(d as int)]);
    }
    s.to_owned()
}

/// Renders a number in decimal.
pub fn usize_to_string(n: usize) -> (r: String)
    ensures
        r@ == dec_digits(n as nat),
    decreases n,
{
    if n < 10 {
        digit_str(n)
    } else {
        let mut s = usize_to_string(n / 10);
        let last = digit_str(n % 10);
        s.append(last.as_str());
        s
    }
}

} // verus!
