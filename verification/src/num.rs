//! Primitive integers contribute their canonical decimal text as a
//! literal.

use crate::format_tokens::FormatTokens;
use crate::item::{DirView, Item, ItemStr};
use crate::lang::Lang;
use crate::tokens::Tokens;
use vstd::prelude::*;
use vstd::string::StringExecFns;

verus! {

/// The decimal digit character for a value below ten.
pub open spec fn dec_digit(d: int) -> char {
    if d == 0 {
        '0'
    } else if d == 1 {
        '1'
    } else if d == 2 {
        '2'
    } else if d == 3 {
        '3'
    } else if d == 4 {
        '4'
    } else if d == 5 {
        '5'
    } else if d == 6 {
        '6'
    } else if d == 7 {
        '7'
    } else if d == 8 {
        '8'
    } else {
        '9'
    }
}

/// The canonical decimal text of a non-negative number: no sign, no
/// leading zeros (a single zero for zero itself).
pub open spec fn dec_nat(n: int) -> Seq<char>
    decreases n,
{
    if n < 10 {
        seq![dec_digit(n)]
    } else {
        dec_nat(n / 10) + seq![dec_digit(n % 10)]
    }
}

/// The canonical decimal text of an integer: a minus sign for negative
/// values, then the digits of the magnitude.
pub open spec fn dec_int(n: int) -> Seq<char> {
    if n < 0 {
        seq!['-'] + dec_nat(-n)
    } else {
        dec_nat(n)
    }
}

/// A stack of digit values read back from the top: the digits were
/// pushed least-significant first, so reading from the top gives the
/// most significant first.
spec fn stacked(digits: Seq<u8>) -> Seq<char> {
    Seq::new(digits.len(), |j: int| dec_digit(digits[digits.len() - 1 - j] as int))
}

/// The one-character text of a decimal digit value.
fn digit_str(d: u8) -> (r: &'static str)
    requires
        d < 10,
    ensures
        r@ == seq![dec_digit(d as int)],
{
    proof {
        reveal_strlit("0");
        reveal_strlit("1");
        reveal_strlit("2");
        reveal_strlit("3");
        reveal_strlit("4");
        reveal_strlit("5");
        reveal_strlit("6");
        reveal_strlit("7");
        reveal_strlit("8");
        reveal_strlit("9");
    }
    if d == 0 {
        proof {
            assert("0"@ =~= seq![dec_digit(0)]);
        }
        "0"
    } else if d == 1 {
        proof {
            assert("1"@ =~= seq![dec_digit(1)]);
        }
        "1"
    } else if d == 2 {
        proof {
            assert("2"@ =~= seq![dec_digit(2)]);
        }
        "2"
    } else if d == 3 {
        proof {
            assert("3"@ =~= seq![dec_digit(3)]);
        }
        "3"
    } else if d == 4 {
        proof {
            assert("4"@ =~= seq![dec_digit(4)]);
        }
        "4"
    } else if d == 5 {
        proof {
            assert("5"@ =~= seq![dec_digit(5)]);
        }
        "5"
    } else if d == 6 {
        proof {
            assert("6"@ =~= seq![dec_digit(6)]);
        }
        "6"
    } else if d == 7 {
        proof {
            assert("7"@ =~= seq![dec_digit(7)]);
        }
        "7"
    } else if d == 8 {
        proof {
            assert("8"@ =~= seq![dec_digit(8)]);
        }
        "8"
    } else {
        proof {
            assert("9"@ =~= seq![dec_digit(9)]);
        }
        "9"
    }
}

/// The canonical decimal text of a non-negative machine integer.
pub fn decimal_u128(n: u128) -> (r: String)
    ensures
        r@ == dec_nat(n as int),
{
    let mut rev: Vec<u8> = Vec::new();
    let mut m: u128 = n;
    proof {
        assert(stacked(rev@) =~= Seq::<char>::empty());
        assert(dec_nat(n as int) + Seq::<char>::empty() =~= dec_nat(n as int));
    }
    while m >= 10
        invariant
            dec_nat(n as int) == dec_nat(m as int) + stacked(rev@),
            forall|t: int| 0 <= t < rev@.len() ==> rev@[t] < 10,
        decreases m,
    {
        let ghost rev0 = rev@;
        let ghost m0 = m as int;
        let d: u8 = (m % 10) as u8;
        rev.push(d);
        m = m / 10;
        proof {
            assert(stacked(rev@) =~= seq![dec_digit(d as int)] + stacked(rev0));
            assert(dec_nat(m0) == dec_nat(m0 / 10) + seq![dec_digit(m0 % 10)]);
            assert(m as int == m0 / 10);
            assert(d as int == m0 % 10);
            assert((dec_nat(m as int) + seq![dec_digit(d as int)]) + stacked(rev0) =~= dec_nat(
                m as int,
            ) + (seq![dec_digit(d as int)] + stacked(rev0)));
        }
    }
    let ghost rev0 = rev@;
    let d: u8 = m as u8;
    rev.push(d);
    proof {
        assert(stacked(rev@) =~= seq![dec_digit(d as int)] + stacked(rev0));
        assert(dec_nat(m as int) == seq![dec_digit(m as int)]);
        assert(dec_nat(m as int) + stacked(rev0) =~= seq![dec_digit(d as int)] + stacked(rev0));
    }
    let k = rev.len();
    let mut s = String::new();
    let mut j: usize = 0;
    while j < k
        invariant
            k == rev@.len(),
            j <= k,
            forall|t: int| 0 <= t < rev@.len() ==> rev@[t] < 10,
            dec_nat(n as int) == stacked(rev@),
            s@ == stacked(rev@).take(j as int),
        decreases k - j,
    {
        let piece = digit_str(rev[k - 1 - j]);
        s.append(piece);
        proof {
            assert(s@ =~= stacked(rev@).take(j + 1));
        }
        j = j + 1;
    }
    proof {
        assert(stacked(rev@).take(k as int) =~= stacked(rev@));
    }
    s
}

/// The canonical decimal text of a signed machine integer.
pub fn decimal_i128(n: i128) -> (r: String)
    ensures
        r@ == dec_int(n as int),
{
    if n >= 0 {
        decimal_u128(n as u128)
    } else {
        let mag: u128 = ((-(n + 1)) as u128) + 1;
        proof {
            assert(mag as int == -(n as int));
        }
        let mut s = String::from_str("-");
        proof {
            reveal_strlit("-");
            assert(s@ =~= seq!['-']);
        }
        let digits = decimal_u128(mag);
        s.append(digits.as_str());
        proof {
            assert(s@ =~= dec_int(n as int));
        }
        s
    }
}

/// An unsigned integer contributes its decimal text as a literal.
impl<L: Lang> FormatTokens<L> for u8 {
    open spec fn dir_view(&self) -> Seq<DirView<L>> {
        seq![DirView::Literal(dec_int(*self as int))]
    }

    open spec fn spec_is_empty(&self) -> bool {
        false
    }

    fn format_tokens(self, tokens: &mut Tokens<L>) {
        tokens.push_item(Item::Literal(ItemStr::from_string(decimal_u128(self as u128))));
    }

    fn is_empty(&self) -> (r: bool) {
        false
    }
}

/// An unsigned integer contributes its decimal text as a literal.
impl<L: Lang> FormatTokens<L> for u16 {
    open spec fn dir_view(&self) -> Seq<DirView<L>> {
        seq![DirView::Literal(dec_int(*self as int))]
    }

    open spec fn spec_is_empty(&self) -> bool {
        false
    }

    fn format_tokens(self, tokens: &mut Tokens<L>) {
        tokens.push_item(Item::Literal(ItemStr::from_string(decimal_u128(self as u128))));
    }

    fn is_empty(&self) -> (r: bool) {
        false
    }
}

/// An unsigned integer contributes its decimal text as a literal.
impl<L: Lang> FormatTokens<L> for u32 {
    open spec fn dir_view(&self) -> Seq<DirView<L>> {
        seq![DirView::Literal(dec_int(*self as int))]
    }

    open spec fn spec_is_empty(&self) -> bool {
        false
    }

    fn format_tokens(self, tokens: &mut Tokens<L>) {
        tokens.push_item(Item::Literal(ItemStr::from_string(decimal_u128(self as u128))));
    }

    fn is_empty(&self) -> (r: bool) {
        false
    }
}

/// An unsigned integer contributes its decimal text as a literal.
impl<L: Lang> FormatTokens<L> for u64 {
    open spec fn dir_view(&self) -> Seq<DirView<L>> {
        seq![DirView::Literal(dec_int(*self as int))]
    }

    open spec fn spec_is_empty(&self) -> bool {
        false
    }

    fn format_tokens(self, tokens: &mut Tokens<L>) {
        tokens.push_item(Item::Literal(ItemStr::from_string(decimal_u128(self as u128))));
    }

    fn is_empty(&self) -> (r: bool) {
        false
    }
}

/// An unsigned integer contributes its decimal text as a literal.
impl<L: Lang> FormatTokens<L> for u128 {
    open spec fn dir_view(&self) -> Seq<DirView<L>> {
        seq![DirView::Literal(dec_int(*self as int))]
    }

    open spec fn spec_is_empty(&self) -> bool {
        false
    }

    fn format_tokens(self, tokens: &mut Tokens<L>) {
        tokens.push_item(Item::Literal(ItemStr::from_string(decimal_u128(self))));
    }

    fn is_empty(&self) -> (r: bool) {
        false
    }
}

/// A signed integer contributes its decimal text as a literal.
impl<L: Lang> FormatTokens<L> for i8 {
    open spec fn dir_view(&self) -> Seq<DirView<L>> {
        seq![DirView::Literal(dec_int(*self as int))]
    }

    open spec fn spec_is_empty(&self) -> bool {
        false
    }

    fn format_tokens(self, tokens: &mut Tokens<L>) {
        tokens.push_item(Item::Literal(ItemStr::from_string(decimal_i128(self as i128))));
    }

    fn is_empty(&self) -> (r: bool) {
        false
    }
}

/// A signed integer contributes its decimal text as a literal.
impl<L: Lang> FormatTokens<L> for i16 {
    open spec fn dir_view(&self) -> Seq<DirView<L>> {
        seq![DirView::Literal(dec_int(*self as int))]
    }

    open spec fn spec_is_empty(&self) -> bool {
        false
    }

    fn format_tokens(self, tokens: &mut Tokens<L>) {
        tokens.push_item(Item::Literal(ItemStr::from_string(decimal_i128(self as i128))));
    }

    fn is_empty(&self) -> (r: bool) {
        false
    }
}

/// A signed integer contributes its decimal text as a literal.
impl<L: Lang> FormatTokens<L> for i32 {
    open spec fn dir_view(&self) -> Seq<DirView<L>> {
        seq![DirView::Literal(dec_int(*self as int))]
    }

    open spec fn spec_is_empty(&self) -> bool {
        false
    }

    fn format_tokens(self, tokens: &mut Tokens<L>) {
        tokens.push_item(Item::Literal(ItemStr::from_string(decimal_i128(self as i128))));
    }

    fn is_empty(&self) -> (r: bool) {
        false
    }
}

/// A signed integer contributes its decimal text as a literal.
impl<L: Lang> FormatTokens<L> for i64 {
    open spec fn dir_view(&self) -> Seq<DirView<L>> {
        seq![DirView::Literal(dec_int(*self as int))]
    }

    open spec fn spec_is_empty(&self) -> bool {
        false
    }

    fn format_tokens(self, tokens: &mut Tokens<L>) {
        tokens.push_item(Item::Literal(ItemStr::from_string(decimal_i128(self as i128))));
    }

    fn is_empty(&self) -> (r: bool) {
        false
    }
}

/// A signed integer contributes its decimal text as a literal.
impl<L: Lang> FormatTokens<L> for i128 {
    open spec fn dir_view(&self) -> Seq<DirView<L>> {
        seq![DirView::Literal(dec_int(*self as int))]
    }

    open spec fn spec_is_empty(&self) -> bool {
        false
    }

    fn format_tokens(self, tokens: &mut Tokens<L>) {
        tokens.push_item(Item::Literal(ItemStr::from_string(decimal_i128(self))));
    }

    fn is_empty(&self) -> (r: bool) {
        false
    }
}

} // verus!
