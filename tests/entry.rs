use averse::entry::{enter_ingredient, enter_step, step_rows, EntryStep};
use averse::recipe::{recipe_name_from_summary, split_tags};
use averse::text::trimmed;
use averse::{Ingredient, Recipe};

#[test]
fn ingredient_entry_takes_refuses_and_ends() {
    let mut v: Vec<Ingredient> = Vec::new();
    assert!(matches!(enter_ingredient(&mut v, "1 lb beef"), EntryStep::Added));
    assert!(matches!(enter_ingredient(&mut v, "1 parsec beef"), EntryStep::Rejected(_)));
    assert_eq!(v.len(), 1);
    assert!(matches!(enter_ingredient(&mut v, ""), EntryStep::Done));
    assert_eq!(v.len(), 1);
    assert_eq!(v[0].name(), "beef");
}

#[test]
fn step_entry_and_rows() {
    let mut steps: Vec<String> = Vec::new();
    assert!(enter_step(&mut steps, "Brown the beef".to_string()));
    assert!(enter_step(&mut steps, "Simmer".to_string()));
    assert!(!enter_step(&mut steps, String::new()));
    assert_eq!(steps.len(), 2);
    let rows = step_rows(&steps);
    assert_eq!(rows[0].Step, 1);
    assert_eq!(rows[1].Step, 2);
    assert_eq!(rows[1].Details, "Simmer");
}

#[test]
fn tags_split_on_comma_space() {
    assert_eq!(split_tags("soup, mealprep"), vec!["soup".to_string(), "mealprep".to_string()]);
    assert_eq!(split_tags(""), vec![String::new()]);
    assert_eq!(split_tags("a,b, c, "), vec!["a,b".to_string(), "c".to_string(), String::new()]);
}

#[test]
fn summary_turns_back_into_the_stored_name() {
    let r = Recipe::new("Beef-stew".to_string(), vec!["soup".to_string()], vec![], vec![]).unwrap();
    let s = r.summary();
    assert_eq!(recipe_name_from_summary(&s), Some("Beef-stew".to_string()));
    assert_eq!(recipe_name_from_summary("  Big pot   -- a, b"), Some("Big-pot".to_string()));
    assert_eq!(recipe_name_from_summary("no marker"), Some("no-marker".to_string()));
}

#[test]
fn trimming() {
    assert_eq!(trimmed("  a b \t"), "a b");
    assert_eq!(trimmed("   "), "");
    assert_eq!(trimmed(""), "");
    assert_eq!(trimmed("\u{a0}x\u{2009}"), "x");
    assert_eq!(recipe_name_from_summary("Big pot\u{a0} -- a"), Some("Big-pot".to_string()));
}
