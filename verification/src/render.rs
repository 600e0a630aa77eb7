//! The text of a polynomial.

use vstd::prelude::*;
use vstd::string::*;
use crate::algebra::Render;
use crate::numbers::decimal_nat;
use crate::polynomial::Polynomial;
use crate::unsigned::display_usize;

verus! {

/// The text of the term with coefficient `c` at the power `power`: the
/// coefficient alone at power 0, followed by `*x` at power 1 and by `*x^` and
/// the power above that.
pub open spec fn term_text<T: Render>(c: T, power: nat) -> Seq<char> {
    if power == 0 {
        c.render_spec()
    } else if power == 1 {
        c.render_spec() + "*x"@
    } else {
        c.render_spec() + "*x^"@ + decimal_nat(power)
    }
}

/// The terms of the first `n` coefficients of `s` in ascending order of
/// power, joined by ` + `.
pub open spec fn terms_text<T: Render>(s: Seq<T>, n: nat) -> Seq<char>
    decreases n,
{
    if n == 0 {
        Seq::empty()
    } else if n == 1 {
        term_text(s[0], 0)
    } else {
        terms_text(s, (n - 1) as nat) + " + "@ + term_text(s[n - 1], (n - 1) as nat)
    }
}

/// The text of the polynomial with coefficients `s`: every stored
/// coefficient as a term, or `<empty polynomial>` where there is none.
pub open spec fn polynomial_text<T: Render>(s: Seq<T>) -> Seq<char> {
    if s.len() == 0 {
        "<empty polynomial>"@
    } else {
        terms_text(s, s.len())
    }
}

impl<T: Render> Polynomial<T> {
    /// Writes the polynomial out as text.
    pub fn to_string(&self) -> (text: String)
        ensures
            text@ == polynomial_text(self@),
    {
        let coefficients = self.coefficients();
        if coefficients.is_empty() {
            return String::from_str("<empty polynomial>");
        }
        let mut text = String::new();
        let mut power: usize = 0;
        while power < coefficients.len()
            invariant
                coefficients@ == self@,
                power <= self@.len(),
                text@ == terms_text(self@, power as nat),
            decreases self@.len() - power,
        {
            let coefficient = coefficients[power].render();
            if power == 0 {
                text.append(coefficient.as_str());
                assert(text@ == coefficient@);
            } else if power == 1 {
                text.append(" + ");
                text.append(coefficient.as_str());
                text.append("*x");
                assert(text@ == terms_text(self@, 1) + " + "@ + (coefficient@ + "*x"@));
            } else {
                let exponent = display_usize(&power);
                text.append(" + ");
                text.append(coefficient.as_str());
                text.append("*x^");
                text.append(exponent.as_str());
                assert(text@ == terms_text(self@, power as nat) + " + "@ + (coefficient@ + "*x^"@
                    + exponent@));
            }
            power = power + 1;
        }
        text
    }
}

} // verus!
