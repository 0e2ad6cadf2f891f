//! The decisions behind entering a recipe line by line: whether a typed line
//! ends the entry, is taken, or is refused.
use vstd::prelude::*;
use crate::ingredient::{Ingredient, IngredientParsingError, is_ingredient_line, ingredient_of};
use crate::plan::ingredients_view;
use crate::recipe::StepRow;

verus! {

/// What entering one line did.
#[derive(Debug)]
pub enum EntryStep {
    /// The line was empty: the entry is over.
    Done,
    /// The line was taken.
    Added,
    /// The line was refused for the reason given, and nothing was taken.
    Rejected(IngredientParsingError),
}

/// Enters one typed line into the ingredients: an empty line ends the entry,
/// a line that describes an ingredient adds it, any other is refused.
pub fn enter_ingredient(ingredients: &mut Vec<Ingredient>, line: &str) -> (r: EntryStep)
    ensures
        line@.len() == 0 ==> r is Done,
        line@.len() > 0 && is_ingredient_line(line@) ==> r is Added,
        line@.len() > 0 && !is_ingredient_line(line@) ==> r is Rejected,
        r is Added ==> ingredients_view(final(ingredients)@) == ingredients_view(old(ingredients)@).push(
            ingredient_of(line@),
        ),
        !(r is Added) ==> final(ingredients)@ == old(ingredients)@,
{
    if line.unicode_len() == 0 {
        return EntryStep::Done;
    }
    match Ingredient::from_str(line) {
        Ok(i) => {
            let ghost before = ingredients@;
            ingredients.push(i);
            assert(ingredients_view(ingredients@) =~= ingredients_view(before).push(ingredient_of(line@)));
            EntryStep::Added
        },
        Err(e) => EntryStep::Rejected(e),
    }
}

/// Enters one typed line into the steps: an empty line ends the entry
/// (`false`), any other is added (`true`).
pub fn enter_step(steps: &mut Vec<String>, line: String) -> (r: bool)
    ensures
        r == (line@.len() > 0),
        r ==> final(steps).deep_view() == old(steps).deep_view().push(line@),
        !r ==> final(steps)@ == old(steps)@,
{
    if line.unicode_len() == 0 {
        return false;
    }
    let ghost before = steps.deep_view();
    steps.push(line);
    assert(steps.deep_view() =~= before.push(line@));
    true
}

/// The steps as table rows, numbered from one.
pub fn step_rows(steps: &Vec<String>) -> (r: Vec<StepRow>)
    requires
        steps@.len() <= u16::MAX,
    ensures
        r@.len() == steps@.len(),
        forall|i: int| 0 <= i < r@.len() ==> (#[trigger] r@[i]).Step == i + 1 && r@[i].Details@ == steps@[i]@,
{
    let mut rows: Vec<StepRow> = Vec::new();
    let mut i: usize = 0;
    while i < steps.len()
        invariant
            steps@.len() <= u16::MAX,
            i <= steps.len(),
            rows@.len() == i,
            forall|j: int| 0 <= j < i ==> (#[trigger] rows@[j]).Step == j + 1 && rows@[j].Details@ == steps@[j]@,
        decreases steps.len() - i,
    {
        rows.push(StepRow { Step: (i + 1) as u16, Details: steps[i].clone() });
        i = i + 1;
    }
    rows
}

} // verus!
