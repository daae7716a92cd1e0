//! Decimal literals: the text that stands for a number with a fraction in
//! a query.

use vstd::prelude::*;
use vstd::string::StringExecFns;
use vstd::string::StrSliceExecFns;

verus! {

/// Whether `c` is a decimal digit.
pub open spec fn is_digit(c: char) -> bool {
    c == '0' || c == '1' || c == '2' || c == '3' || c == '4' || c == '5' || c == '6' || c == '7'
        || c == '8' || c == '9'
}

/// One digit or more, and nothing else.
pub open spec fn all_digits(s: Seq<char>) -> bool {
    s.len() > 0 && forall|i: int| 0 <= i < s.len() ==> is_digit(#[trigger] s[i])
}

/// Whether `s` is digits, a point at `k`, and digits.
pub open spec fn splits_at(s: Seq<char>, k: int) -> bool {
    0 < k < s.len() - 1 && s[k] == '.' && all_digits(s.take(k)) && all_digits(s.skip(k + 1))
}

/// A number without sign: `inf`, or digits with at most one point between
/// them.
pub open spec fn is_magnitude(s: Seq<char>) -> bool {
    s == "inf"@ || all_digits(s) || exists|k: int| splits_at(s, k)
}

/// A decimal literal: `NaN`, or a magnitude with or without a minus sign.
pub open spec fn is_float_literal(s: Seq<char>) -> bool {
    s == "NaN"@ || is_magnitude(s) || (s.len() > 0 && s[0] == '-' && is_magnitude(s.skip(1)))
}

fn is_digit_char(c: char) -> (r: bool)
    ensures
        r == is_digit(c),
{
    c == '0' || c == '1' || c == '2' || c == '3' || c == '4' || c == '5' || c == '6' || c == '7'
        || c == '8' || c == '9'
}

fn scan_digits(text: &str, n: usize, from: usize) -> (end: usize)
    requires
        n == text@.len(),
        from <= n,
    ensures
        from <= end <= n,
        forall|i: int| from <= i < end ==> is_digit(#[trigger] text@[i]),
        end < n ==> !is_digit(text@[end as int]),
{
    let mut end = from;
    while end < n
        invariant
            n == text@.len(),
            from <= end <= n,
            forall|i: int| from <= i < end ==> is_digit(#[trigger] text@[i]),
        decreases n - end,
    {
        if !is_digit_char(text.get_char(end)) {
            return end;
        }
        end += 1;
    }
    end
}

fn check_magnitude(text: &str, n: usize, start: usize) -> (r: bool)
    requires
        n == text@.len(),
        start <= n,
    ensures
        r == is_magnitude(text@.skip(start as int)),
{
    let ghost s = text@;
    let ghost m = text@.skip(start as int);
    proof {
        reveal_strlit("inf");
    }
    if n - start == 3 && text.get_char(start) == 'i' && text.get_char(start + 1) == 'n'
        && text.get_char(start + 2) == 'f' {
        assert(m =~= "inf"@);
        return true;
    }
    assert(m != "inf"@) by {
        if m == "inf"@ {
            assert(m.len() == n - start);
            assert(m[0] == s[start as int] && m[1] == s[start + 1] && m[2] == s[start + 2]);
            assert(m[0] == 'i' && m[1] == 'n' && m[2] == 'f');
        }
    }
    let a = scan_digits(text, n, start);
    let ghost p = a - start;
    if a == start {
        proof {
            if m.len() > 0 {
                assert(m[0] == s[start as int]);
            }
            assert forall|k: int| !splits_at(m, k) by {
                if splits_at(m, k) {
                    assert(m.take(k)[0] == m[0]);
                }
            }
        }
        return false;
    }
    if a == n {
        assert(all_digits(m)) by {
            assert forall|i: int| 0 <= i < m.len() implies is_digit(#[trigger] m[i]) by {
                assert(m[i] == s[start + i]);
            }
        }
        return true;
    }
    assert(m[p] == s[a as int]);
    assert(!is_digit(m[p]));
    assert forall|k: int| k != p implies !splits_at(m, k) by {
        if splits_at(m, k) {
            if k < p {
                assert(m[k] == s[start + k]);
            } else {
                assert(m.take(k)[p] == m[p]);
            }
        }
    }
    if text.get_char(a) != '.' {
        return false;
    }
    let b = scan_digits(text, n, a + 1);
    if b == n && b > a + 1 {
        proof {
            assert forall|i: int| 0 <= i < m.take(p).len() implies is_digit(#[trigger] m.take(p)[i]) by {
                assert(m.take(p)[i] == s[start + i]);
            }
            let rest = m.skip(p + 1);
            assert forall|i: int| 0 <= i < rest.len() implies is_digit(#[trigger] rest[i]) by {
                assert(rest[i] == s[a + 1 + i]);
            }
            assert(splits_at(m, p));
        }
        true
    } else {
        proof {
            if splits_at(m, p) {
                let rest = m.skip(p + 1);
                assert(rest[b - a - 1] == s[b as int]);
            }
        }
        false
    }
}

/// The text of a decimal literal.
#[derive(Debug, PartialEq, Eq)]
pub struct FloatLiteral {
    text: String,
}

impl Clone for FloatLiteral {
    fn clone(&self) -> (r: FloatLiteral)
        ensures
            r@ == self@,
    {
        proof {
            use_type_invariant(self);
        }
        FloatLiteral { text: self.text.clone() }
    }
}

impl View for FloatLiteral {
    type V = Seq<char>;

    closed spec fn view(&self) -> Seq<char> {
        self.text@
    }
}

impl FloatLiteral {
    #[verifier::type_invariant]
    spec fn well_formed(self) -> bool {
        is_float_literal(self@)
    }

    /// The literal that `text` spells, if it spells one.
    pub fn new(text: &str) -> (r: Option<FloatLiteral>)
        ensures
            match r {
                Some(literal) => is_float_literal(text@) && literal@ == text@,
                None => !is_float_literal(text@),
            },
    {
        let n = text.unicode_len();
        proof {
            reveal_strlit("NaN");
            reveal_strlit("inf");
        }
        let is_nan = n == 3 && text.get_char(0) == 'N' && text.get_char(1) == 'a' && text.get_char(
            2,
        ) == 'N';
        assert(is_nan == (text@ =~= "NaN"@)) by {
            if text@ == "NaN"@ {
                assert(text@[0] == 'N' && text@[1] == 'a' && text@[2] == 'N');
            }
        }
        let ok = if is_nan {
            true
        } else if n > 0 && text.get_char(0) == '-' {
            assert(!is_magnitude(text@)) by {
                assert forall|k: int| !splits_at(text@, k) by {
                    if splits_at(text@, k) {
                        assert(text@.take(k)[0] == text@[0]);
                    }
                }
            }
            check_magnitude(text, n, 1)
        } else {
            assert(text@.skip(0) =~= text@);
            check_magnitude(text, n, 0)
        };
        if ok {
            Some(FloatLiteral { text: String::from_str(text) })
        } else {
            None
        }
    }

    /// The text of the literal.
    pub fn as_str(&self) -> (s: &str)
        ensures
            s@ == self@,
            is_float_literal(self@),
    {
        proof {
            use_type_invariant(self);
        }
        self.text.as_str()
    }
}

} // verus!
