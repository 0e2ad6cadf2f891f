use averse::plan::latest_plan_names;
use averse::recipe::recipe_key;
use averse::{GroceryError, Ingredient, Plan, PlanRow, Recipe, Unit, Weekday};

fn recipe(name: &str, tags: &[&str], lines: &[&str]) -> Recipe {
    let ingredients = lines.iter().map(|l| Ingredient::from_str(l).unwrap()).collect();
    let tags = tags.iter().map(|t| t.to_string()).collect();
    Recipe::new(name.to_string(), tags, ingredients, vec!["cook".to_string()]).unwrap()
}

#[test]
fn storage_key_turns_spaces_into_hyphens() {
    assert_eq!(recipe_key("Recipe name"), "Recipe-name");
    assert_eq!(recipe_key(&recipe_key("a b  c")), recipe_key("a b  c"));
    assert_eq!(recipe_key("a b  c"), "a-b--c");
    assert_ne!(recipe_key("a b"), recipe_key("a  b"));
}

#[test]
fn recipe_paths() {
    assert_eq!(averse::get_recipe_out_path("dir/", "Beef stew"), "dir/Beef-stew.yaml");
    assert_eq!(averse::get_recipe_out_path(".", "Beef stew"), "./Beef-stew.yaml");
    let p = Plan::new("2022-07-31".to_string());
    assert_eq!(p.out_path("./plans"), "./plans/2022-07-31.yaml");
}

#[test]
fn recipe_needs_a_name() {
    assert!(Recipe::new(String::new(), vec![], vec![], vec![]).is_none());
    let r = recipe("Pancakes", &["breakfast"], &["1 cup flour"]);
    assert_eq!(r.name(), "Pancakes");
    assert_eq!(r.ingredients().len(), 1);
    assert_eq!(r.steps().len(), 1);
}

#[test]
fn duplicate_groceries_keep_the_first_amount() {
    let a = recipe("Recipe A", &[], &["1 cup flour", "2 can beans"]);
    let b = recipe("Recipe B", &[], &["2 cup flour", "1 lb beef"]);
    let mut plan = Plan::new("2022-07-31".to_string());
    plan.add_recipe(Weekday::Monday, "Recipe-A".to_string());
    plan.add_recipe(Weekday::Tuesday, "Recipe B".to_string());
    let store = vec![a, b];
    assert!(plan.compile_groceries(&store).is_ok());
    let g = plan.groceries();
    assert_eq!(g.len(), 3);
    let flour: Vec<&Ingredient> = g.iter().filter(|i| i.name() == "flour" && i.unit() == Unit::Cup).collect();
    assert_eq!(flour.len(), 1);
    assert_eq!(flour[0].amount().text(), "1");
    assert_eq!(g[0].name(), "flour");
    assert_eq!(g[1].name(), "beans");
    assert_eq!(g[2].name(), "beef");
}

#[test]
fn same_name_in_another_unit_is_another_grocery() {
    let a = recipe("A", &[], &["1 cup flour", "3 cup flour", "100 gram flour"]);
    let mut plan = Plan::new("d".to_string());
    plan.add_recipe(Weekday::Sunday, "A".to_string());
    plan.add_recipe(Weekday::Saturday, "A".to_string());
    plan.compile_groceries(&vec![a]).unwrap();
    let g = plan.get_grocery_table();
    assert_eq!(g.len(), 2);
    assert_eq!(g[0].Id, 0);
    assert_eq!(g[0].Amount.text(), "1");
    assert_eq!(g[0].Unit, Unit::Cup);
    assert_eq!(g[1].Id, 1);
    assert_eq!(g[1].Amount.text(), "100");
    assert_eq!(g[1].Unit, Unit::Gram);
    assert_eq!(g[1].Ingredient, "flour");
}

#[test]
fn groceries_follow_week_order() {
    let a = recipe("A", &[], &["1 item apple"]);
    let b = recipe("B", &[], &["1 item banana"]);
    let mut plan = Plan::new("d".to_string());
    plan.add_recipe(Weekday::Friday, "A".to_string());
    plan.add_recipe(Weekday::Monday, "B".to_string());
    assert_eq!(plan.recipe_refs(), vec!["B".to_string(), "A".to_string()]);
    plan.compile_groceries(&vec![a, b]).unwrap();
    assert_eq!(plan.groceries()[0].name(), "banana");
    assert_eq!(plan.groceries()[1].name(), "apple");
}

#[test]
fn missing_recipe_fails_the_whole_list() {
    let a = recipe("A", &[], &["1 item apple"]);
    let mut plan = Plan::new("d".to_string());
    plan.add_recipe(Weekday::Monday, "A".to_string());
    plan.add_recipe(Weekday::Monday, "Ghost soup".to_string());
    match plan.compile_groceries(&vec![a]) {
        Err(GroceryError::RecipeNotFound(n)) => assert_eq!(n, "Ghost soup"),
        Ok(()) => panic!("compiled a list with a missing recipe"),
    }
    assert_eq!(plan.groceries().len(), 0);
}

#[test]
fn empty_plan_has_no_groceries() {
    let mut plan = Plan::new("d".to_string());
    assert!(plan.compile_groceries(&vec![]).is_ok());
    assert_eq!(plan.groceries().len(), 0);
}

#[test]
fn latest_three_of_five_plans() {
    let names: Vec<String> = ["2022-07-10", "2022-07-31", "2022-07-03", "2022-07-24", "2022-07-17"]
        .iter()
        .map(|s| s.to_string())
        .collect();
    let r = latest_plan_names(names.clone(), 3);
    assert_eq!(r, vec!["2022-07-31".to_string(), "2022-07-24".to_string(), "2022-07-17".to_string()]);
    assert_eq!(latest_plan_names(names.clone(), 10).len(), 5);
    assert_eq!(latest_plan_names(names, 0).len(), 0);
}

#[test]
fn weekday_labels() {
    let week = Weekday::week();
    assert_eq!(week.len(), 7);
    assert_eq!(week[0].label(), "Sunday");
    assert_eq!(week[2].label(), "Tuesday");
    assert_eq!(Weekday::from_label("Saturday"), Some(Weekday::Saturday));
    assert_eq!(Weekday::from_label("saturday"), None);
    for (i, d) in week.iter().enumerate() {
        assert_eq!(d.index(), i);
        assert_eq!(Weekday::from_label(d.label()), Some(*d));
    }
}

#[test]
fn plan_row_lists_each_day() {
    let mut plan = Plan::new("2022-07-31".to_string());
    plan.add_recipe(Weekday::Tuesday, "Soup".to_string());
    plan.add_recipe(Weekday::Tuesday, "Bread".to_string());
    plan.add_recipe(Weekday::Sunday, "Roast".to_string());
    let row = PlanRow::from(&plan);
    assert_eq!(row.Date, "2022-07-31");
    assert_eq!(row.Tuesday, "Soup\n Bread");
    assert_eq!(row.Sunday, "Roast");
    assert_eq!(row.Monday, "");
    assert_eq!(plan.recipes_for(Weekday::Tuesday).len(), 2);
}

#[test]
fn summary_and_row() {
    let r = recipe("Beef-stew", &["soup", "mealprep"], &["2 lb beef chuck"]);
    let s = r.summary();
    assert_eq!(s, format!("{:30} -- {}", "Beef stew", "soup, mealprep"));
    let row = r.to_row(4);
    assert_eq!(row.ID, 4);
    assert_eq!(row.Name, "Beef-stew");
    assert_eq!(row.Tags, "soup, mealprep");
}

#[test]
fn long_names_are_not_cut_in_summaries() {
    let name = "a".repeat(40);
    let r = recipe(&name, &[], &[]);
    assert_eq!(r.summary(), format!("{} -- ", name));
}

#[test]
fn recipe_answers_to_its_storage_name() {
    let r = recipe("Beef stew", &[], &[]);
    assert!(averse::recipe::answers_to_name(&r, "Beef-stew"));
    assert!(averse::recipe::answers_to_name(&r, "Beef stew"));
    assert!(!averse::recipe::answers_to_name(&r, "Beef"));
}
