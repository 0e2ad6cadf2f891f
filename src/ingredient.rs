//! Ingredients: an amount, a unit and a name, and the parser that reads one
//! from a line of text such as `2 lb beef chuck`.
use vstd::prelude::*;
use crate::text::{is_space, space_char, push_char, join, joined};
use crate::unit::{Unit, lower_of, unit_of_word, unit_name};

verus! {

pub open spec fn is_digit(c: char) -> bool {
    '0' <= c && c <= '9'
}

/// Digits with at most one decimal point among them, and at least one
/// digit (`2`, `0.5`, `.5`, `2.`).
pub open spec fn is_decimal(s: Seq<char>) -> bool {
    &&& forall|i: int| 0 <= i < s.len() ==> is_digit(#[trigger] s[i]) || s[i] == '.'
    &&& forall|i: int, j: int| 0 <= i < s.len() && 0 <= j < s.len() && s[i] == '.' && s[j] == '.' ==> i == j
    &&& exists|i: int| 0 <= i < s.len() && is_digit(#[trigger] s[i])
}

/// The digits of an exponent, after an optional sign (`3`, `-2`, `+10`).
pub open spec fn is_exponent(x: Seq<char>) -> bool {
    let k: int = if x.len() > 0 && (x[0] == '+' || x[0] == '-') { 1 } else { 0 };
    &&& x.len() > k
    &&& forall|i: int| k <= i < x.len() ==> is_digit(#[trigger] x[i])
}

/// How many characters a leading sign takes up: one or none.
pub open spec fn sign_len(s: Seq<char>) -> int {
    if s.len() > 0 && (s[0] == '+' || s[0] == '-') { 1 } else { 0 }
}

pub open spec fn is_exponent_mark(c: char) -> bool {
    c == 'e' || c == 'E'
}

/// Whether a decimal writes zero: it holds no digit but `0`.
pub open spec fn is_zero_decimal(m: Seq<char>) -> bool {
    forall|i: int| 0 <= i < m.len() ==> #[trigger] m[i] == '0' || m[i] == '.'
}

/// A finite number that `f32`'s parser reads as a value of at least zero:
/// an optional sign, a decimal, and an optional exponent of `e` or `E` with
/// an optional sign (`2`, `+2`, `0.5`, `1e3`, `2.5E-1`, `-0`, `-0.0e3`). A
/// minus sign is admitted only before a decimal that writes zero; a negative
/// value that only rounds to zero (`-1e-50`) writes a negative quantity and
/// is refused.
pub open spec fn is_finite_amount(s: Seq<char>) -> bool {
    exists|e: int|
        sign_len(s) <= e <= s.len() && #[trigger] is_decimal(s.subrange(sign_len(s), e)) && (e == s.len() || (
        is_exponent_mark(s[e]) && is_exponent(s.subrange(e + 1, s.len() as int)))) && (s[0] == '-'
            ==> is_zero_decimal(s.subrange(sign_len(s), e)))
}

/// Whether `b` is the lower-case ASCII word `w` in any mix of cases.
pub open spec fn same_word_any_case(b: Seq<char>, w: Seq<char>) -> bool {
    &&& b.len() == w.len()
    &&& forall|i: int| 0 <= i < b.len() ==> #[trigger] b[i] == w[i] || (b[i] as u32) + 32 == (w[i] as u32)
}

/// Positive infinity as `f32`'s parser reads it: `inf` or `infinity` in any
/// case, after an optional `+`.
pub open spec fn is_infinity_text(s: Seq<char>) -> bool {
    let b = if s.len() > 0 && s[0] == '+' { s.drop_first() } else { s };
    same_word_any_case(b, "inf"@) || same_word_any_case(b, "infinity"@)
}

/// A non-negative amount: what `f32`'s parser reads as a value of at least
/// zero, `NaN` left out.
pub open spec fn is_amount_text(s: Seq<char>) -> bool {
    is_finite_amount(s) || is_infinity_text(s)
}

/// Whether `m` holds no digit but `0`.
fn zero_decimal_text(m: &str) -> (r: bool)
    ensures
        r == is_zero_decimal(m@),
{
    let n = m.unicode_len();
    let mut i: usize = 0;
    while i < n
        invariant
            n == m@.len(),
            i <= n,
            forall|j: int| 0 <= j < i ==> #[trigger] m@[j] == '0' || m@[j] == '.',
        decreases n - i,
    {
        let c = m.get_char(i);
        if c != '0' && c != '.' {
            return false;
        }
        i = i + 1;
    }
    true
}

/// Whether `b` is the lower-case ASCII word `w` in any mix of cases.
fn word_any_case(b: &str, w: &str) -> (r: bool)
    ensures
        r == same_word_any_case(b@, w@),
{
    let n = b.unicode_len();
    if n != w.unicode_len() {
        return false;
    }
    let mut i: usize = 0;
    while i < n
        invariant
            n == b@.len(),
            n == w@.len(),
            i <= n,
            forall|j: int| 0 <= j < i ==> #[trigger] b@[j] == w@[j] || (b@[j] as u32) + 32 == (w@[j] as u32),
        decreases n - i,
    {
        let c = b.get_char(i);
        let d = w.get_char(i);
        if !(c == d || (c as u32) + 32 == (d as u32)) {
            return false;
        }
        i = i + 1;
    }
    true
}

/// Whether `s` writes positive infinity.
fn infinity_text(s: &str) -> (r: bool)
    ensures
        r == is_infinity_text(s@),
{
    let n = s.unicode_len();
    let b = if n > 0 && s.get_char(0) == '+' { s.substring_char(1, n) } else { s };
    assert(n > 0 && s@[0] == '+' ==> b@ == s@.drop_first());
    word_any_case(b, "inf") || word_any_case(b, "infinity")
}

/// Whether `s` writes a finite number of at least zero.
fn finite_text(s: &str) -> (r: bool)
    ensures
        r == is_finite_amount(s@),
{
    let n = s.unicode_len();
    let negative = n > 0 && s.get_char(0) == '-';
    let start: usize = if n > 0 && (s.get_char(0) == '+' || s.get_char(0) == '-') { 1 } else { 0 };
    let mut k: usize = start;
    while k < n && !(s.get_char(k) == 'e' || s.get_char(k) == 'E')
        invariant
            n == s@.len(),
            start == sign_len(s@),
            start <= k <= n,
            forall|j: int| start <= j < k ==> !is_exponent_mark(#[trigger] s@[j]),
        decreases n - k,
    {
        k = k + 1;
    }
    let m = s.substring_char(start, k);
    let mantissa = decimal_text(m);
    let exponent = k == n || exponent_text(s.substring_char(k + 1, n));
    let zero = !negative || zero_decimal_text(m);
    if mantissa && exponent && zero {
        assert(is_decimal(s@.subrange(sign_len(s@), k as int)));
        true
    } else {
        proof {
            assert forall|e: int|
                sign_len(s@) <= e <= s@.len() && #[trigger] is_decimal(s@.subrange(sign_len(s@), e))
                    implies !((e == s@.len() || (is_exponent_mark(s@[e]) && is_exponent(
                    s@.subrange(e + 1, s@.len() as int)))) && (s@[0] == '-' ==> is_zero_decimal(
                    s@.subrange(sign_len(s@), e)))) by {
                let mm = s@.subrange(sign_len(s@), e);
                if e < k {
                    if e < s@.len() {
                        assert(!is_exponent_mark(s@[e]));
                    }
                } else if e > k {
                    assert(mm[k - start] == s@[k as int]);
                    assert(!(is_digit(mm[k - start]) || mm[k - start] == '.'));
                }
            }
        }
        false
    }
}

/// Whether `s` is a decimal.
fn decimal_text(s: &str) -> (r: bool)
    ensures
        r == is_decimal(s@),
{
    let n = s.unicode_len();
    let mut dot: Option<usize> = None;
    let mut digit: Option<usize> = None;
    let mut i: usize = 0;
    while i < n
        invariant
            n == s@.len(),
            i <= n,
            forall|k: int| 0 <= k < i ==> is_digit(#[trigger] s@[k]) || s@[k] == '.',
            match dot {
                Some(d) => d < i && s@[d as int] == '.' && forall|k: int| 0 <= k < i && #[trigger] s@[k] == '.' ==> k == d,
                None => forall|k: int| 0 <= k < i ==> #[trigger] s@[k] != '.',
            },
            match digit {
                Some(d) => d < i && is_digit(s@[d as int]),
                None => forall|k: int| 0 <= k < i ==> !is_digit(#[trigger] s@[k]),
            },
        decreases n - i,
    {
        let c = s.get_char(i);
        if c == '.' {
            if dot.is_some() {
                proof {
                    let d = dot->Some_0;
                    assert(s@[d as int] == '.' && s@[i as int] == '.');
                }
                return false;
            }
            dot = Some(i);
        } else if '0' <= c && c <= '9' {
            digit = Some(i);
        } else {
            assert(!(is_digit(s@[i as int]) || s@[i as int] == '.'));
            return false;
        }
        i = i + 1;
    }
    match digit {
        Some(d) => {
            assert(is_digit(s@[d as int]));
            true
        },
        None => false,
    }
}

/// Whether `x` is an exponent's digits with an optional sign.
fn exponent_text(x: &str) -> (r: bool)
    ensures
        r == is_exponent(x@),
{
    let n = x.unicode_len();
    let k: usize = if n > 0 && (x.get_char(0) == '+' || x.get_char(0) == '-') { 1 } else { 0 };
    if n <= k {
        return false;
    }
    let mut i: usize = k;
    while i < n
        invariant
            n == x@.len(),
            k <= i <= n,
            k == (if x@.len() > 0 && (x@[0] == '+' || x@[0] == '-') { 1int } else { 0int }),
            forall|j: int| k <= j < i ==> is_digit(#[trigger] x@[j]),
        decreases n - i,
    {
        let c = x.get_char(i);
        if !('0' <= c && c <= '9') {
            assert(!is_digit(x@[i as int]));
            return false;
        }
        i = i + 1;
    }
    true
}

/// An ingredient's quantity, kept as the decimal text it was given in.
#[derive(Debug)]
pub struct Amount {
    text: String,
}

impl View for Amount {
    type V = Seq<char>;

    closed spec fn view(&self) -> Seq<char> {
        self.text@
    }
}

impl Amount {
    #[verifier::type_invariant]
    spec fn inv(&self) -> bool {
        is_amount_text(self.text@)
    }

    /// The amount that `s` writes, if `f32`'s parser reads it as a value of
    /// at least zero.
    pub fn parse(s: &str) -> (r: Option<Amount>)
        ensures
            r is Some <==> is_amount_text(s@),
            r matches Some(a) ==> a@ == s@,
    {
        if finite_text(s) || infinity_text(s) {
            Some(Amount { text: String::from_str(s) })
        } else {
            None
        }
    }

    /// The amount as it was written.
    pub fn text(&self) -> (r: &str)
        ensures
            r@ == self@,
            is_amount_text(r@),
    {
        proof { use_type_invariant(self); }
        self.text.as_str()
    }

    pub fn clone(&self) -> (r: Amount)
        ensures
            r@ == self@,
    {
        proof { use_type_invariant(self); }
        Amount { text: self.text.clone() }
    }
}

/// What an ingredient holds, as plain sequences.
pub struct IngredientView {
    pub name: Seq<char>,
    pub amount: Seq<char>,
    pub unit: Unit,
}

/// A quantity of one named item.
#[derive(Debug)]
pub struct Ingredient {
    name: String,
    amount: Amount,
    unit: Unit,
}

impl View for Ingredient {
    type V = IngredientView;

    closed spec fn view(&self) -> IngredientView {
        IngredientView { name: self.name@, amount: self.amount@, unit: self.unit }
    }
}

/// Why a line could not be read as an ingredient.
#[derive(Debug)]
pub enum IngredientParsingError {
    /// The first field is not a non-negative decimal number; holds that field.
    InvalidAmount(String),
    /// The second field names no unit; holds that field.
    InvalidUnit(String),
    /// The line has fewer than three fields.
    MissingFields,
}

impl IngredientParsingError {
    /// A message for the person who typed the line.
    pub fn message(&self) -> (r: String)
        ensures
            match self {
                IngredientParsingError::InvalidAmount(t) => r@ == t@ + ": AMOUNT must be a valid number"@,
                IngredientParsingError::InvalidUnit(t) => r@ == t@
                    + " invalid UNIT - must be one of: can, cup, gallon, gram, item, kg, lb, oz, tsp, tbsp"@,
                IngredientParsingError::MissingFields => r@ == "expected <AMOUNT> <UNIT> <INGREDIENT>"@,
            },
    {
        match self {
            IngredientParsingError::InvalidAmount(t) => {
                let mut m = String::from_str(t.as_str());
                m.append(": AMOUNT must be a valid number");
                m
            },
            IngredientParsingError::InvalidUnit(t) => {
                let mut m = String::from_str(t.as_str());
                m.append(
                    " invalid UNIT - must be one of: can, cup, gallon, gram, item, kg, lb, oz, tsp, tbsp",
                );
                m
            },
            IngredientParsingError::MissingFields => String::from_str(
                "expected <AMOUNT> <UNIT> <INGREDIENT>",
            ),
        }
    }
}

/// The whitespace-separated fields of `s`, in order.
pub open spec fn tokens(s: Seq<char>) -> Seq<Seq<char>>
    decreases s.len(),
{
    if s.len() == 0 {
        Seq::empty()
    } else {
        let t = tokens(s.drop_last());
        let c = s.last();
        if is_space(c) {
            t
        } else if s.len() >= 2 && !is_space(s[s.len() - 2]) {
            t.update(t.len() - 1, t.last().push(c))
        } else {
            t.push(seq![c])
        }
    }
}

proof fn lemma_tokens_nonempty(s: Seq<char>)
    requires
        s.len() > 0,
        !is_space(s.last()),
    ensures
        tokens(s).len() > 0,
    decreases s.len(),
{
    if s.len() >= 2 && !is_space(s[s.len() - 2]) {
        lemma_tokens_nonempty(s.drop_last());
    }
}

/// Splits `s` into its whitespace-separated fields.
pub fn split_fields(s: &str) -> (r: Vec<String>)
    ensures
        r.deep_view() == tokens(s@),
{
    let n = s.unicode_len();
    let mut out: Vec<String> = Vec::new();
    let mut i: usize = 0;
    while i < n
        invariant
            n == s@.len(),
            i <= n,
            out.deep_view() == tokens(s@.subrange(0, i as int)),
        decreases n - i,
    {
        let c = s.get_char(i);
        let ghost p = s@.subrange(0, i + 1);
        assert(p.drop_last() == s@.subrange(0, i as int));
        assert(p.last() == c);
        if space_char(c) {
        } else if i >= 1 && !space_char(s.get_char(i - 1)) {
            assert(p[p.len() - 2] == s@[i - 1]);
            proof { lemma_tokens_nonempty(s@.subrange(0, i as int)); }
            let mut last = out.pop().unwrap();
            push_char(&mut last, c);
            out.push(last);
            assert(out.deep_view() == tokens(p));
        } else {
            out.push(String::new());
            let k = out.len() - 1;
            let mut first = out.pop().unwrap();
            push_char(&mut first, c);
            out.push(first);
            assert(out.deep_view() == tokens(p));
            assert(k == out.len() - 1);
        }
        i = i + 1;
    }
    assert(s@ == s@.subrange(0, n as int));
    out
}

/// The ingredient that a line describes: `<amount> <unit> <name...>`, whose
/// name is the remaining fields joined by single spaces.
pub open spec fn ingredient_of(line: Seq<char>) -> IngredientView {
    let t = tokens(line);
    IngredientView {
        name: join(t.subrange(2, t.len() as int), " "@),
        amount: t[0],
        unit: unit_of_word(lower_of(t[1]))->Some_0,
    }
}

/// Whether a line describes an ingredient.
pub open spec fn is_ingredient_line(line: Seq<char>) -> bool {
    let t = tokens(line);
    &&& t.len() >= 3
    &&& is_amount_text(t[0])
    &&& unit_of_word(lower_of(t[1])) is Some
}

impl Ingredient {
    pub fn new(name: String, amount: Amount, unit: Unit) -> (r: Ingredient)
        ensures
            r@ == (IngredientView { name: name@, amount: amount@, unit }),
    {
        Ingredient { name, amount, unit }
    }

    pub fn name(&self) -> (r: &str)
        ensures
            r@ == self@.name,
    {
        self.name.as_str()
    }

    pub fn amount(&self) -> (r: &Amount)
        ensures
            r@ == self@.amount,
    {
        &self.amount
    }

    pub fn unit(&self) -> (r: Unit)
        ensures
            r == self@.unit,
    {
        self.unit
    }

    pub fn clone(&self) -> (r: Ingredient)
        ensures
            r@ == self@,
    {
        Ingredient { name: self.name.clone(), amount: self.amount.clone(), unit: self.unit }
    }

    /// Reads an ingredient from a line such as `2 lb beef chuck`. The fields
    /// are separated by whitespace; the unit is matched in any case.
    pub fn from_str(line: &str) -> (r: Result<Ingredient, IngredientParsingError>)
        ensures
            r is Ok <==> is_ingredient_line(line@),
            match r {
                Ok(i) => i@ == ingredient_of(line@),
                Err(IngredientParsingError::MissingFields) => tokens(line@).len() < 3,
                Err(IngredientParsingError::InvalidAmount(t)) => {
                    &&& tokens(line@).len() >= 3
                    &&& !is_amount_text(tokens(line@)[0])
                    &&& t@ == tokens(line@)[0]
                },
                Err(IngredientParsingError::InvalidUnit(t)) => {
                    &&& tokens(line@).len() >= 3
                    &&& is_amount_text(tokens(line@)[0])
                    &&& unit_of_word(lower_of(tokens(line@)[1])) is None
                    &&& t@ == tokens(line@)[1]
                },
            },
    {
        let fields = split_fields(line);
        let ghost t = tokens(line@);
        if fields.len() < 3 {
            return Err(IngredientParsingError::MissingFields);
        }
        assert(fields[0]@ == t[0]);
        assert(fields[1]@ == t[1]);
        let amount = match Amount::parse(fields[0].as_str()) {
            Some(a) => a,
            None => return Err(IngredientParsingError::InvalidAmount(fields[0].clone())),
        };
        let unit = match Unit::from_str(fields[1].as_str()) {
            Ok(u) => u,
            Err(e) => return Err(e),
        };
        let mut rest: Vec<String> = Vec::new();
        let mut i: usize = 2;
        while i < fields.len()
            invariant
                2 <= i <= fields.len(),
                fields.deep_view() == t,
                rest.deep_view() == t.subrange(2, i as int),
            decreases fields.len() - i,
        {
            rest.push(fields[i].clone());
            assert(t.subrange(2, i + 1) == t.subrange(2, i as int).push(t[i as int]));
            i = i + 1;
        }
        let name = joined(&rest, " ");
        Ok(Ingredient { name, amount, unit })
    }

    /// The ingredient as `<amount> <unit> <name>`.
    pub fn to_string(&self) -> (r: String)
        ensures
            r@ == self@.amount + " "@ + unit_name(self@.unit) + " "@ + self@.name,
    {
        let mut s = String::from_str(self.amount.text());
        s.append(" ");
        s.append(self.unit.name());
        s.append(" ");
        s.append(self.name.as_str());
        s
    }
}

/// An ingredient as the three text columns of a table.
#[allow(non_snake_case)]
pub struct IngredientRow {
    pub Name: String,
    pub Amount: String,
    pub Unit: String,
}

impl IngredientRow {
    pub fn from_ingredient(ingr: &Ingredient) -> (r: IngredientRow)
        ensures
            r.Name@ == ingr@.name,
            r.Amount@ == ingr@.amount,
            r.Unit@ == unit_name(ingr@.unit),
    {
        IngredientRow {
            Name: ingr.name.clone(),
            Amount: String::from_str(ingr.amount.text()),
            Unit: ingr.unit.to_string(),
        }
    }
}

} // verus!
