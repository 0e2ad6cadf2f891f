use averse::{Amount, Ingredient, IngredientParsingError, Unit};

#[test]
fn parses_amount_unit_and_name() {
    let i = Ingredient::from_str("2 lb beef chuck").unwrap();
    assert_eq!(i.amount().text(), "2");
    assert_eq!(i.unit(), Unit::Lb);
    assert_eq!(i.name(), "beef chuck");
}

#[test]
fn rejects_amount_that_is_not_a_number() {
    match Ingredient::from_str("abc lb beef") {
        Err(IngredientParsingError::InvalidAmount(t)) => assert_eq!(t, "abc"),
        other => panic!("unexpected: {:?}", other),
    }
}

#[test]
fn rejects_unit_outside_vocabulary() {
    match Ingredient::from_str("2 liters beef") {
        Err(IngredientParsingError::InvalidUnit(t)) => assert_eq!(t, "liters"),
        other => panic!("unexpected: {:?}", other),
    }
}

#[test]
fn rejects_lines_with_fewer_than_three_fields() {
    assert!(matches!(Ingredient::from_str("2 lb"), Err(IngredientParsingError::MissingFields)));
    assert!(matches!(Ingredient::from_str("2"), Err(IngredientParsingError::MissingFields)));
    assert!(matches!(Ingredient::from_str(""), Err(IngredientParsingError::MissingFields)));
    assert!(matches!(Ingredient::from_str("  \t "), Err(IngredientParsingError::MissingFields)));
}

#[test]
fn unit_matches_in_any_case() {
    let i = Ingredient::from_str("1 CUP flour").unwrap();
    assert_eq!(i.unit(), Unit::Cup);
    let j = Ingredient::from_str("3 TbSp sugar").unwrap();
    assert_eq!(j.unit(), Unit::Tbsp);
    assert_eq!(Unit::from_word("GALLON"), Some(Unit::Gallon));
    assert_eq!(Unit::from_word("Kg"), Some(Unit::Kg));
    assert_eq!(Unit::from_lowercase("Kg"), None);
}

#[test]
fn name_fields_are_joined_by_single_spaces() {
    let i = Ingredient::from_str("  1.5   tbsp\tolive    oil  ").unwrap();
    assert_eq!(i.amount().text(), "1.5");
    assert_eq!(i.unit(), Unit::Tbsp);
    assert_eq!(i.name(), "olive oil");
}

#[test]
fn every_unit_word_is_recognised() {
    let words = ["can", "cup", "gallon", "gram", "item", "kg", "lb", "oz", "tsp", "tbsp"];
    let units = [
        Unit::Can, Unit::Cup, Unit::Gallon, Unit::Gram, Unit::Item,
        Unit::Kg, Unit::Lb, Unit::Oz, Unit::Tsp, Unit::Tbsp,
    ];
    for k in 0..words.len() {
        assert_eq!(Unit::from_lowercase(words[k]), Some(units[k]));
    }
    assert_eq!(Unit::from_lowercase("liters"), None);
}

#[test]
fn unit_names() {
    assert_eq!(Unit::Lb.name(), "Lb");
    assert_eq!(Unit::Tbsp.to_string(), "Tbsp");
    assert_eq!(Unit::Gallon.name(), "Gallon");
}

#[test]
fn amounts() {
    assert_eq!(Amount::parse("2").unwrap().text(), "2");
    assert_eq!(Amount::parse("0.25").unwrap().text(), "0.25");
    assert!(Amount::parse(".5").is_some());
    assert!(Amount::parse("2.").is_some());
    assert!(Amount::parse(".").is_none());
    assert!(Amount::parse("").is_none());
    assert!(Amount::parse("1.2.3").is_none());
    assert!(Amount::parse("-1").is_none());
    assert!(Amount::parse("1e").is_none());
}

#[test]
fn amounts_with_sign_or_exponent() {
    for ok in ["1e3", "+2", "2E0", "2.5E-1", "1e+2", ".5e1", "+0.0"] {
        assert_eq!(Amount::parse(ok).unwrap().text(), ok);
    }
    for bad in ["e3", "1e+", "1E-", "-1", "-0.1", "-1e-50", "NaN", "nan", "+", "+-1", "1e3e4", "1e2.5", "++2"] {
        assert!(Amount::parse(bad).is_none(), "{bad}");
    }
}

#[test]
fn parses_exponent_and_plus_amounts() {
    let i = Ingredient::from_str("1e3 lb beef").unwrap();
    assert_eq!(i.amount().text(), "1e3");
    assert_eq!(i.unit(), Unit::Lb);
    let j = Ingredient::from_str("+2 lb beef").unwrap();
    assert_eq!(j.amount().text(), "+2");
    let k = Ingredient::from_str("2E0 cup flour").unwrap();
    assert_eq!(k.unit(), Unit::Cup);
    assert!(matches!(Ingredient::from_str("-1 lb beef"), Err(IngredientParsingError::InvalidAmount(_))));
    assert!(matches!(Ingredient::from_str("NaN lb beef"), Err(IngredientParsingError::InvalidAmount(_))));
}

#[test]
fn unicode_whitespace_separates_fields() {
    let i = Ingredient::from_str("2\u{a0}lb\u{3000}beef\u{2003}chuck").unwrap();
    assert_eq!(i.name(), "beef chuck");
    assert_eq!(i.unit(), Unit::Lb);
}

#[test]
fn ingredient_text_and_row() {
    let i = Ingredient::from_str("0.5 oz dried basil").unwrap();
    assert_eq!(i.to_string(), "0.5 Oz dried basil");
    let row = averse::IngredientRow::from_ingredient(&i);
    assert_eq!(row.Name, "dried basil");
    assert_eq!(row.Amount, "0.5");
    assert_eq!(row.Unit, "Oz");
}

#[test]
fn error_messages_name_the_field() {
    let e = Ingredient::from_str("2 liters beef").unwrap_err();
    assert!(e.message().starts_with("liters invalid UNIT"));
    let e = Ingredient::from_str("x lb beef").unwrap_err();
    assert!(e.message().starts_with("x:"));
}

#[test]
fn unit_from_str_keeps_the_refused_word() {
    assert_eq!(Unit::from_str("OZ").unwrap(), Unit::Oz);
    match Unit::from_str("Liters") {
        Err(IngredientParsingError::InvalidUnit(t)) => assert_eq!(t, "Liters"),
        other => panic!("unexpected: {:?}", other),
    }
}

#[test]
fn negative_zero_and_infinity_are_amounts() {
    for ok in ["-0", "-0.0", "-.0", "-0e3", "-00.00E-7", "inf", "INF", "+inf", "Infinity", "+iNfInItY"] {
        assert_eq!(Amount::parse(ok).unwrap().text(), ok);
    }
    for bad in ["-inf", "-Infinity", "infin", "infinityy", "+-0", "-", "-e3"] {
        assert!(Amount::parse(bad).is_none(), "{bad}");
    }
    let i = Ingredient::from_str("-0 lb beef").unwrap();
    assert_eq!(i.amount().text(), "-0");
    let j = Ingredient::from_str("inf cup flour").unwrap();
    assert_eq!(j.amount().text(), "inf");
}
