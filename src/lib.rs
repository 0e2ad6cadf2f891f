//! A meal planner's library: recipes and their ingredients, week plans that
//! assign recipes to days, and the grocery list that a plan compiles to.

pub mod text;
pub mod unit;
pub mod ingredient;
pub mod recipe;
pub mod plan;
pub mod entry;

pub use crate::ingredient::{Amount, Ingredient, IngredientParsingError, IngredientRow};
pub use crate::plan::{GroceryError, GroceryRow, Plan, PlanRow, Weekday};
pub use crate::recipe::{Recipe, RecipeRow, StepRow, get_recipe_out_path};
pub use crate::unit::Unit;
