use averse::get_recipe_out_path;

#[test]
fn test_recipe_path() {
    let dir = "Some/arbitrary/path".to_string();
    let name = "Recipe name".to_string();
    let path = get_recipe_out_path(&dir, &name);
    assert_eq!("Some/arbitrary/path/Recipe-name.yaml", path);
}
