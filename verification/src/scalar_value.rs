//! The scalar value model: booleans, IEEE-754 binary64 numbers (carried as
//! bit encodings, see `numerics`), and text, with the coercion and
//! comparison laws every instruction relies on.

use vstd::prelude::*;
use core::cmp::Ordering;
use crate::numerics::{
    num_is_nan, num_is_zero, num_eq, num_gt, num_lt, lemma_num_trichotomy,
    is_nan_bits, is_zero_bits, eq_bits, lt_bits, NUM_ZERO, NUM_ONE,
};
use crate::float_ops::{text_to_num, num_to_text, parse_num_bits, format_num_bits};

verus! {

/// One scalar value of the engine. A number is stored as its IEEE-754
/// binary64 bit encoding.
#[derive(Debug, PartialEq)]
pub enum ScalarValue {
    Bool(bool),
    Num(u64),
    Text(String),
}

/// The Unicode `White_Space` code points, by which whitespace-only text is
/// recognised before a comparison.
pub open spec fn is_space_char(c: char) -> bool {
    let u = c as u32;
    (0x09 <= u && u <= 0x0D) || u == 0x20 || u == 0x85 || u == 0xA0 || u == 0x1680
        || (0x2000 <= u && u <= 0x200A) || u == 0x2028 || u == 0x2029 || u == 0x202F
        || u == 0x205F || u == 0x3000
}

/// What a value coerces to as a boolean: a number is true unless it is zero
/// of either sign; text is false exactly for "", "0", "-0" and "false".
pub open spec fn spec_to_bool(v: ScalarValue) -> bool {
    match v {
        ScalarValue::Bool(b) => b,
        ScalarValue::Num(n) => !num_is_zero(n),
        ScalarValue::Text(s) => !(s@ == Seq::<char>::empty() || s@ == seq!['0']
            || s@ == seq!['-', '0'] || s@ == seq!['f', 'a', 'l', 's', 'e']),
    }
}

/// What a value coerces to as a number: true is 1.0 and false 0.0; text
/// parses as a decimal numeral, and anything unparsable counts as 0.0.
pub open spec fn spec_to_num(v: ScalarValue) -> u64 {
    match v {
        ScalarValue::Bool(b) => if b { NUM_ONE } else { NUM_ZERO },
        ScalarValue::Num(n) => n,
        ScalarValue::Text(s) => match text_to_num(s@) {
            Some(b) => b,
            None => NUM_ZERO,
        },
    }
}

/// What a value coerces to as text.
pub open spec fn spec_to_text(v: ScalarValue) -> Seq<char> {
    match v {
        ScalarValue::Bool(b) => if b { seq!['t', 'r', 'u', 'e'] } else { seq!['f', 'a', 'l', 's', 'e'] },
        ScalarValue::Num(n) => num_to_text(n),
        ScalarValue::Text(s) => s@,
    }
}

/// Whether every character of a piece of text is whitespace.
pub open spec fn all_space(t: Seq<char>) -> bool {
    forall|i: int| 0 <= i < t.len() ==> is_space_char(#[trigger] t[i])
}

/// Whether a value is whitespace-only text; empty text counts as such.
pub open spec fn val_is_whitespace(v: ScalarValue) -> bool {
    match v {
        ScalarValue::Text(s) => all_space(s@),
        _ => false,
    }
}

/// The lexicographic order of two pieces of text, by code point.
pub open spec fn lex_cmp(a: Seq<char>, b: Seq<char>) -> Ordering
    decreases a.len(),
{
    if a.len() == 0 && b.len() == 0 {
        Ordering::Equal
    } else if a.len() == 0 {
        Ordering::Less
    } else if b.len() == 0 {
        Ordering::Greater
    } else if a[0] == b[0] {
        lex_cmp(a.drop_first(), b.drop_first())
    } else if (a[0] as u32) < (b[0] as u32) {
        Ordering::Less
    } else {
        Ordering::Greater
    }
}

/// How two values compare: both are taken as numbers; if either is NaN — an
/// unparsable or whitespace-only text counting as NaN here — the values fall
/// back to a lexicographic comparison of their text forms, otherwise the
/// numbers decide.
pub open spec fn spec_compare(v1: ScalarValue, v2: ScalarValue) -> Ordering {
    let n1 = spec_to_num(v1);
    let n2 = spec_to_num(v2);
    let textual1 = num_is_nan(n1) || (num_is_zero(n1) && val_is_whitespace(v1));
    let textual2 = num_is_nan(n2) || (num_is_zero(n2) && val_is_whitespace(v2));
    if textual1 || textual2 {
        lex_cmp(spec_to_text(v1), spec_to_text(v2))
    } else if num_eq(n1, n2) {
        Ordering::Equal
    } else if num_gt(n1, n2) {
        Ordering::Greater
    } else {
        Ordering::Less
    }
}

/// Character-wise equality of two pieces of text.
pub fn str_eq(a: &str, b: &str) -> (r: bool)
    ensures
        r == (a@ == b@),
{
    let alen = a.unicode_len();
    let blen = b.unicode_len();
    if alen != blen {
        return false;
    }
    let mut i: usize = 0;
    while i < alen
        invariant
            i <= alen,
            alen == a@.len(),
            blen == b@.len(),
            alen == blen,
            forall|j: int| 0 <= j < i ==> a@[j] == b@[j],
        decreases alen - i,
    {
        if a.get_char(i) != b.get_char(i) {
            return false;
        }
        i += 1;
    }
    proof {
        assert(a@ =~= b@);
    }
    true
}

/// The lexicographic comparison of two pieces of text, by code point.
pub fn compare_text(a: &str, b: &str) -> (r: Ordering)
    ensures
        r == lex_cmp(a@, b@),
{
    let alen = a.unicode_len();
    let blen = b.unicode_len();
    let mut i: usize = 0;
    proof {
        assert(a@.skip(0) =~= a@);
        assert(b@.skip(0) =~= b@);
    }
    loop
        invariant
            i <= alen,
            i <= blen,
            alen == a@.len(),
            blen == b@.len(),
            lex_cmp(a@, b@) == lex_cmp(a@.skip(i as int), b@.skip(i as int)),
        decreases alen - i,
    {
        if i >= alen || i >= blen {
            proof {
                reveal_with_fuel(lex_cmp, 2);
            }
            if alen == blen {
                return Ordering::Equal;
            } else if alen < blen {
                return Ordering::Less;
            } else {
                return Ordering::Greater;
            }
        }
        let ca = a.get_char(i);
        let cb = b.get_char(i);
        if ca == cb {
            proof {
                reveal_with_fuel(lex_cmp, 2);
                assert(a@.skip(i as int).drop_first() =~= a@.skip(i + 1));
                assert(b@.skip(i as int).drop_first() =~= b@.skip(i + 1));
            }
            i += 1;
        } else if (ca as u32) < (cb as u32) {
            proof {
                reveal_with_fuel(lex_cmp, 2);
            }
            return Ordering::Less;
        } else {
            proof {
                reveal_with_fuel(lex_cmp, 2);
            }
            return Ordering::Greater;
        }
    }
}

impl ScalarValue {
    /// A copy of the value; pushing clones, it never moves the original.
    pub fn duplicate(&self) -> (r: Self)
        ensures
            r == *self,
    {
        match self {
            ScalarValue::Bool(b) => ScalarValue::Bool(*b),
            ScalarValue::Num(n) => ScalarValue::Num(*n),
            ScalarValue::Text(s) => ScalarValue::Text(s.clone()),
        }
    }

    /// The boolean the value coerces to.
    pub fn to_bool(&self) -> (r: bool)
        ensures
            r == spec_to_bool(*self),
    {
        match self {
            ScalarValue::Bool(b) => *b,
            ScalarValue::Num(n) => !is_zero_bits(*n),
            ScalarValue::Text(s) => {
                proof {
                    reveal_strlit("");
                    reveal_strlit("0");
                    reveal_strlit("-0");
                    reveal_strlit("false");
                    assert(""@ =~= Seq::<char>::empty());
                    assert("0"@ =~= seq!['0']);
                    assert("-0"@ =~= seq!['-', '0']);
                    assert("false"@ =~= seq!['f', 'a', 'l', 's', 'e']);
                }
                let st = s.as_str();
                !(str_eq(st, "") || str_eq(st, "0") || str_eq(st, "-0") || str_eq(st, "false"))
            },
        }
    }

    /// The number the value coerces to, as a binary64 encoding.
    pub fn to_num(&self) -> (r: u64)
        ensures
            r == spec_to_num(*self),
    {
        match self {
            ScalarValue::Bool(b) => if *b { NUM_ONE } else { NUM_ZERO },
            ScalarValue::Num(n) => *n,
            ScalarValue::Text(s) => match parse_num_bits(s.as_str()) {
                Some(b) => b,
                None => NUM_ZERO,
            },
        }
    }

    /// The text the value coerces to.
    pub fn to_text(&self) -> (r: String)
        ensures
            r@ == spec_to_text(*self),
    {
        match self {
            ScalarValue::Bool(b) => {
                proof {
                    reveal_strlit("true");
                    reveal_strlit("false");
                    assert("true"@ =~= seq!['t', 'r', 'u', 'e']);
                    assert("false"@ =~= seq!['f', 'a', 'l', 's', 'e']);
                }
                if *b {
                    String::from_str("true")
                } else {
                    String::from_str("false")
                }
            },
            ScalarValue::Num(n) => format_num_bits(*n),
            ScalarValue::Text(s) => s.clone(),
        }
    }

    /// Whether the value is whitespace-only text.
    fn is_whitespace(&self) -> (r: bool)
        ensures
            r == val_is_whitespace(*self),
    {
        match self {
            ScalarValue::Text(s) => {
                let st = s.as_str();
                let len = st.unicode_len();
                let mut i: usize = 0;
                while i < len
                    invariant
                        i <= len,
                        len == st@.len(),
                        st@ == s@,
                        *self == ScalarValue::Text(*s),
                        forall|j: int| 0 <= j < i ==> is_space_char(#[trigger] st@[j]),
                    decreases len - i,
                {
                    let c = st.get_char(i);
                    let u = c as u32;
                    if !((0x09 <= u && u <= 0x0D) || u == 0x20 || u == 0x85 || u == 0xA0
                        || u == 0x1680 || (0x2000 <= u && u <= 0x200A) || u == 0x2028
                        || u == 0x2029 || u == 0x202F || u == 0x205F || u == 0x3000) {
                        proof {
                            let t = s@;
                            assert(0 <= i < t.len() && !is_space_char(t[i as int]));
                            assert(!all_space(t));
                            assert(*self == ScalarValue::Text(*s));
                        }
                        return false;
                    }
                    i += 1;
                }
                proof {
                    assert forall|j: int| 0 <= j < s@.len() implies is_space_char(#[trigger] s@[j]) by {
                        assert(is_space_char(st@[j]));
                    }
                }
                true
            },
            _ => false,
        }
    }

    /// How this value compares to another, by the engine's comparison law.
    pub fn compare(&self, other: &Self) -> (r: Ordering)
        ensures
            r == spec_compare(*self, *other),
    {
        let n1 = self.to_num();
        let n2 = other.to_num();
        let textual1 = is_nan_bits(n1) || (is_zero_bits(n1) && self.is_whitespace());
        let textual2 = is_nan_bits(n2) || (is_zero_bits(n2) && other.is_whitespace());
        if textual1 || textual2 {
            let s1 = self.to_text();
            let s2 = other.to_text();
            compare_text(s1.as_str(), s2.as_str())
        } else if eq_bits(n1, n2) {
            Ordering::Equal
        } else if lt_bits(n2, n1) {
            Ordering::Greater
        } else {
            Ordering::Less
        }
    }
}

/// Text comparison is antisymmetric: swapping the sides swaps Less and
/// Greater and keeps Equal.
pub proof fn lemma_lex_cmp_antisym(a: Seq<char>, b: Seq<char>)
    ensures
        (lex_cmp(a, b) == Ordering::Equal) <==> (lex_cmp(b, a) == Ordering::Equal),
        (lex_cmp(a, b) == Ordering::Less) <==> (lex_cmp(b, a) == Ordering::Greater),
    decreases a.len(),
{
    if a.len() != 0 && b.len() != 0 {
        if a[0] as u32 == b[0] as u32 {
            vstd::utf8::char_u32_cast(a[0], a[0] as u32);
            vstd::utf8::char_u32_cast(b[0], b[0] as u32);
            assert(a[0] == b[0]);
        }
        if a[0] == b[0] {
            lemma_lex_cmp_antisym(a.drop_first(), b.drop_first());
        }
    }
}

/// Comparison symmetry: for all values v and w, v equals w exactly when w
/// equals v, and v is below w exactly when w is above v.
pub proof fn lemma_compare_symmetry(v: ScalarValue, w: ScalarValue)
    ensures
        (spec_compare(v, w) == Ordering::Equal) <==> (spec_compare(w, v) == Ordering::Equal),
        (spec_compare(v, w) == Ordering::Less) <==> (spec_compare(w, v) == Ordering::Greater),
{
    lemma_lex_cmp_antisym(spec_to_text(v), spec_to_text(w));
    lemma_num_trichotomy(spec_to_num(v), spec_to_num(w));
}

/// Coercion laws: wrapping the boolean form of a value changes nothing
/// further, and a number survives a round trip through a value bit-exactly.
pub proof fn lemma_coercion_laws(v: ScalarValue, x: u64)
    ensures
        spec_to_bool(ScalarValue::Bool(spec_to_bool(v))) == spec_to_bool(v),
        spec_to_num(ScalarValue::Num(x)) == x,
{
}

/// The text values that coerce to false are exactly "", "0", "-0" and
/// "false"; every other piece of text is true.
pub proof fn lemma_text_truth(s: String)
    ensures
        (s@ == Seq::<char>::empty() || s@ == seq!['0'] || s@ == seq!['-', '0'] || s@ == seq![
            'f',
            'a',
            'l',
            's',
            'e',
        ]) <==> !spec_to_bool(ScalarValue::Text(s)),
{
}

} // verus!
