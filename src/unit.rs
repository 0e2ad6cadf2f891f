//! The closed set of measuring units that an ingredient may use.
use vstd::prelude::*;
use crate::text::same_text;
use crate::ingredient::IngredientParsingError;

verus! {

/// A unit of measurement.
#[derive(Clone, Copy, Debug, PartialEq, Eq, Structural)]
pub enum Unit {
    Can,
    Cup,
    Gallon,
    Gram,
    Item,
    Kg,
    Lb,
    Oz,
    Tbsp,
    Tsp,
}

/// The unit that a lower-case word names, if any.
pub open spec fn unit_of_word(w: Seq<char>) -> Option<Unit> {
    if w == "can"@ {
        Some(Unit::Can)
    } else if w == "cup"@ {
        Some(Unit::Cup)
    } else if w == "gallon"@ {
        Some(Unit::Gallon)
    } else if w == "gram"@ {
        Some(Unit::Gram)
    } else if w == "item"@ {
        Some(Unit::Item)
    } else if w == "kg"@ {
        Some(Unit::Kg)
    } else if w == "lb"@ {
        Some(Unit::Lb)
    } else if w == "oz"@ {
        Some(Unit::Oz)
    } else if w == "tsp"@ {
        Some(Unit::Tsp)
    } else if w == "tbsp"@ {
        Some(Unit::Tbsp)
    } else {
        None
    }
}

/// The name under which a unit is shown.
pub open spec fn unit_name(u: Unit) -> Seq<char> {
    match u {
        Unit::Can => "Can"@,
        Unit::Cup => "Cup"@,
        Unit::Gallon => "Gallon"@,
        Unit::Gram => "Gram"@,
        Unit::Item => "Item"@,
        Unit::Kg => "Kg"@,
        Unit::Lb => "Lb"@,
        Unit::Oz => "Oz"@,
        Unit::Tsp => "Tsp"@,
        Unit::Tbsp => "Tbsp"@,
    }
}

/// What `str::to_lowercase` makes of a string.
pub uninterp spec fn lower_of(s: Seq<char>) -> Seq<char>;

/// Relies on `str::to_lowercase`: the lower-case form of a string, which
/// depends on its characters alone.
#[verifier::external_body]
fn lowercase(s: &str) -> (r: String)
    ensures
        r@ == lower_of(s@),
{
    s.to_lowercase()
}

impl Unit {
    /// The unit that an already lower-cased word names.
    pub fn from_lowercase(w: &str) -> (r: Option<Unit>)
        ensures
            r == unit_of_word(w@),
    {
        if same_text(w, "can") {
            Some(Unit::Can)
        } else if same_text(w, "cup") {
            Some(Unit::Cup)
        } else if same_text(w, "gallon") {
            Some(Unit::Gallon)
        } else if same_text(w, "gram") {
            Some(Unit::Gram)
        } else if same_text(w, "item") {
            Some(Unit::Item)
        } else if same_text(w, "kg") {
            Some(Unit::Kg)
        } else if same_text(w, "lb") {
            Some(Unit::Lb)
        } else if same_text(w, "oz") {
            Some(Unit::Oz)
        } else if same_text(w, "tsp") {
            Some(Unit::Tsp)
        } else if same_text(w, "tbsp") {
            Some(Unit::Tbsp)
        } else {
            None
        }
    }

    /// The unit that a word names, in any mix of upper and lower case.
    pub fn from_word(w: &str) -> (r: Option<Unit>)
        ensures
            r == unit_of_word(lower_of(w@)),
    {
        let lower = lowercase(w);
        Unit::from_lowercase(lower.as_str())
    }

    /// The unit that a word names in any case, or the error that holds the word.
    pub fn from_str(w: &str) -> (r: Result<Unit, IngredientParsingError>)
        ensures
            unit_of_word(lower_of(w@)) matches Some(u) ==> r == Ok::<Unit, IngredientParsingError>(u),
            unit_of_word(lower_of(w@)) is None ==> (r matches Err(IngredientParsingError::InvalidUnit(t)) && t@ == w@),
    {
        match Unit::from_word(w) {
            Some(u) => Ok(u),
            None => Err(IngredientParsingError::InvalidUnit(String::from_str(w))),
        }
    }

    /// The name under which the unit is shown (`Lb` for pounds).
    pub fn name(&self) -> (r: &'static str)
        ensures
            r@ == unit_name(*self),
    {
        match self {
            Unit::Can => "Can",
            Unit::Cup => "Cup",
            Unit::Gallon => "Gallon",
            Unit::Gram => "Gram",
            Unit::Item => "Item",
            Unit::Kg => "Kg",
            Unit::Lb => "Lb",
            Unit::Oz => "Oz",
            Unit::Tsp => "Tsp",
            Unit::Tbsp => "Tbsp",
        }
    }

    /// The shown name, as an owned string.
    pub fn to_string(&self) -> (r: String)
        ensures
            r@ == unit_name(*self),
    {
        String::from_str(self.name())
    }
}

} // verus!
