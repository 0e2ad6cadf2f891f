//! Week plans: recipes assigned by name to the days of a week, and the
//! grocery list that such a plan compiles to.
use vstd::prelude::*;
use crate::text::{same_text, join, joined};
use crate::ingredient::{Amount, Ingredient, IngredientView};
use crate::recipe::{Recipe, RecipeView, storage_key, answers_to_name, join_path, path_in, clone_strings};
use crate::unit::Unit;

verus! {

/// A day of the week.
#[derive(Clone, Copy, Debug, PartialEq, Eq, Structural)]
pub enum Weekday {
    Sunday,
    Monday,
    Tuesday,
    Wednesday,
    Thursday,
    Friday,
    Saturday,
}

/// The place of a day in the week, from Sunday at 0 to Saturday at 6.
pub open spec fn day_index(d: Weekday) -> int {
    match d {
        Weekday::Sunday => 0,
        Weekday::Monday => 1,
        Weekday::Tuesday => 2,
        Weekday::Wednesday => 3,
        Weekday::Thursday => 4,
        Weekday::Friday => 5,
        Weekday::Saturday => 6,
    }
}

/// The label under which a day is stored and shown.
pub open spec fn day_label(d: Weekday) -> Seq<char> {
    match d {
        Weekday::Sunday => "Sunday"@,
        Weekday::Monday => "Monday"@,
        Weekday::Tuesday => "Tuesday"@,
        Weekday::Wednesday => "Wednesday"@,
        Weekday::Thursday => "Thursday"@,
        Weekday::Friday => "Friday"@,
        Weekday::Saturday => "Saturday"@,
    }
}

/// The day whose label is `s`, if any.
pub open spec fn day_of_label(s: Seq<char>) -> Option<Weekday> {
    if s == "Sunday"@ {
        Some(Weekday::Sunday)
    } else if s == "Monday"@ {
        Some(Weekday::Monday)
    } else if s == "Tuesday"@ {
        Some(Weekday::Tuesday)
    } else if s == "Wednesday"@ {
        Some(Weekday::Wednesday)
    } else if s == "Thursday"@ {
        Some(Weekday::Thursday)
    } else if s == "Friday"@ {
        Some(Weekday::Friday)
    } else if s == "Saturday"@ {
        Some(Weekday::Saturday)
    } else {
        None
    }
}

impl Weekday {
    /// The days in week order, Sunday first.
    pub fn week() -> (r: Vec<Weekday>)
        ensures
            r@.len() == 7,
            forall|i: int| 0 <= i < 7 ==> day_index(#[trigger] r@[i]) == i,
    {
        vec![
            Weekday::Sunday,
            Weekday::Monday,
            Weekday::Tuesday,
            Weekday::Wednesday,
            Weekday::Thursday,
            Weekday::Friday,
            Weekday::Saturday,
        ]
    }

    pub fn index(&self) -> (r: usize)
        ensures
            r == day_index(*self),
    {
        match self {
            Weekday::Sunday => 0,
            Weekday::Monday => 1,
            Weekday::Tuesday => 2,
            Weekday::Wednesday => 3,
            Weekday::Thursday => 4,
            Weekday::Friday => 5,
            Weekday::Saturday => 6,
        }
    }

    pub fn label(&self) -> (r: &'static str)
        ensures
            r@ == day_label(*self),
    {
        match self {
            Weekday::Sunday => "Sunday",
            Weekday::Monday => "Monday",
            Weekday::Tuesday => "Tuesday",
            Weekday::Wednesday => "Wednesday",
            Weekday::Thursday => "Thursday",
            Weekday::Friday => "Friday",
            Weekday::Saturday => "Saturday",
        }
    }

    pub fn from_label(s: &str) -> (r: Option<Weekday>)
        ensures
            r == day_of_label(s@),
    {
        if same_text(s, "Sunday") {
            Some(Weekday::Sunday)
        } else if same_text(s, "Monday") {
            Some(Weekday::Monday)
        } else if same_text(s, "Tuesday") {
            Some(Weekday::Tuesday)
        } else if same_text(s, "Wednesday") {
            Some(Weekday::Wednesday)
        } else if same_text(s, "Thursday") {
            Some(Weekday::Thursday)
        } else if same_text(s, "Friday") {
            Some(Weekday::Friday)
        } else if same_text(s, "Saturday") {
            Some(Weekday::Saturday)
        } else {
            None
        }
    }
}

/// Every ingredient of the recipes, recipe after recipe, each recipe's in
/// its own order.
pub open spec fn all_ingredients(rs: Seq<RecipeView>) -> Seq<IngredientView>
    decreases rs.len(),
{
    if rs.len() == 0 {
        Seq::empty()
    } else {
        all_ingredients(rs.drop_last()) + rs.last().ingredients
    }
}

/// Two ingredients stand for the same grocery: same name and same unit.
pub open spec fn same_grocery(a: IngredientView, b: IngredientView) -> bool {
    a.name == b.name && a.unit == b.unit
}

/// Whether `g` already holds the grocery of `x`.
pub open spec fn has_grocery(g: Seq<IngredientView>, x: IngredientView) -> bool {
    exists|i: int| 0 <= i < g.len() && same_grocery(#[trigger] g[i], x)
}

/// The grocery list of a sequence of ingredients: each name and unit once,
/// with the first occurrence kept as it is and the later ones left out (the
/// amounts are not added up).
pub open spec fn dedup(items: Seq<IngredientView>) -> Seq<IngredientView>
    decreases items.len(),
{
    if items.len() == 0 {
        Seq::empty()
    } else {
        let d = dedup(items.drop_last());
        if has_grocery(d, items.last()) {
            d
        } else {
            d.push(items.last())
        }
    }
}

/// The grocery list of a sequence of ingredients holds each name and unit of
/// the sequence exactly once, and each entry is the first ingredient of the
/// sequence with that name and unit, amount included: later amounts are
/// dropped, never added on.
pub proof fn lemma_groceries_first_seen(items: Seq<IngredientView>)
    ensures
        forall|i: int, j: int|
            0 <= i < dedup(items).len() && 0 <= j < dedup(items).len() && i != j
                ==> !same_grocery(#[trigger] dedup(items)[i], #[trigger] dedup(items)[j]),
        forall|k: int| 0 <= k < items.len() ==> has_grocery(dedup(items), #[trigger] items[k]),
        forall|i: int| 0 <= i < dedup(items).len() ==> exists|k: int|
            0 <= k < items.len() && items[k] == #[trigger] dedup(items)[i]
                && forall|j: int| 0 <= j < k ==> !same_grocery(#[trigger] items[j], dedup(items)[i]),
    decreases items.len(),
{
    if items.len() > 0 {
        let p = items.drop_last();
        let x = items.last();
        let dp = dedup(p);
        let d = dedup(items);
        lemma_groceries_first_seen(p);
        assert forall|k: int| 0 <= k < p.len() implies #[trigger] items[k] == p[k] by {}
        if has_grocery(dp, x) {
            assert(d == dp);
            assert forall|k: int| 0 <= k < items.len() implies has_grocery(d, #[trigger] items[k]) by {
                if k < p.len() {
                    assert(has_grocery(dp, p[k]));
                }
            }
            assert forall|i: int| 0 <= i < d.len() implies exists|k: int|
                0 <= k < items.len() && items[k] == #[trigger] d[i]
                    && forall|j: int| 0 <= j < k ==> !same_grocery(#[trigger] items[j], d[i]) by {
                let k = choose|k: int|
                    0 <= k < p.len() && p[k] == #[trigger] dp[i]
                        && forall|j: int| 0 <= j < k ==> !same_grocery(#[trigger] p[j], dp[i]);
                assert(items[k] == d[i]);
                assert forall|j: int| 0 <= j < k implies !same_grocery(#[trigger] items[j], d[i]) by {
                    assert(items[j] == p[j]);
                }
            }
        } else {
            assert(d == dp.push(x));
            assert forall|i: int, j: int|
                0 <= i < d.len() && 0 <= j < d.len() && i != j
                    implies !same_grocery(#[trigger] d[i], #[trigger] d[j]) by {
                if i < dp.len() && j < dp.len() {
                    assert(d[i] == dp[i] && d[j] == dp[j]);
                } else if i < dp.len() {
                    assert(d[i] == dp[i]);
                    if same_grocery(d[i], d[j]) {
                        assert(same_grocery(dp[i], x));
                    }
                } else {
                    assert(d[j] == dp[j]);
                    if same_grocery(d[i], d[j]) {
                        assert(same_grocery(dp[j], x));
                    }
                }
            }
            assert forall|k: int| 0 <= k < items.len() implies has_grocery(d, #[trigger] items[k]) by {
                if k < p.len() {
                    assert(has_grocery(dp, p[k]));
                    let m = choose|m: int| 0 <= m < dp.len() && same_grocery(#[trigger] dp[m], p[k]);
                    assert(d[m] == dp[m]);
                } else {
                    assert(same_grocery(d[dp.len() as int], items[k]));
                }
            }
            assert forall|i: int| 0 <= i < d.len() implies exists|k: int|
                0 <= k < items.len() && items[k] == #[trigger] d[i]
                    && forall|j: int| 0 <= j < k ==> !same_grocery(#[trigger] items[j], d[i]) by {
                if i < dp.len() {
                    let k = choose|k: int|
                        0 <= k < p.len() && p[k] == #[trigger] dp[i]
                            && forall|j: int| 0 <= j < k ==> !same_grocery(#[trigger] p[j], dp[i]);
                    assert(items[k] == d[i]);
                    assert forall|j: int| 0 <= j < k implies !same_grocery(#[trigger] items[j], d[i]) by {
                        assert(items[j] == p[j]);
                    }
                } else {
                    let k = items.len() - 1;
                    assert(items[k] == d[i]);
                    assert forall|j: int| 0 <= j < k implies !same_grocery(#[trigger] items[j], d[i]) by {
                        assert(items[j] == p[j]);
                        assert(has_grocery(dp, p[j]));
                        if same_grocery(items[j], d[i]) {
                            let m = choose|m: int| 0 <= m < dp.len() && same_grocery(#[trigger] dp[m], p[j]);
                            assert(same_grocery(dp[m], x));
                        }
                    }
                }
            }
        }
    }
}

/// The grocery list of a sequence of recipes.
pub open spec fn groceries_of(rs: Seq<RecipeView>) -> Seq<IngredientView> {
    dedup(all_ingredients(rs))
}

/// The names of a plan's days, day after day in week order.
pub open spec fn flatten(days: Seq<Seq<Seq<char>>>) -> Seq<Seq<char>>
    decreases days.len(),
{
    if days.len() == 0 {
        Seq::empty()
    } else {
        flatten(days.drop_last()) + days.last()
    }
}

/// Whether the stored recipe answers to the name `reference`.
pub open spec fn answers_to(r: RecipeView, reference: Seq<char>) -> bool {
    storage_key(r.name) == storage_key(reference)
}

/// The place in `store` of the first recipe that answers to `reference`.
#[verifier::opaque]
pub open spec fn find_recipe(store: Seq<RecipeView>, reference: Seq<char>) -> Option<int> {
    if exists|i: int| 0 <= i < store.len() && answers_to(#[trigger] store[i], reference) {
        Some(
            choose|i: int|
                0 <= i < store.len() && answers_to(store[i], reference) && forall|j: int|
                    0 <= j < i ==> !answers_to(#[trigger] store[j], reference),
        )
    } else {
        None
    }
}

/// Whether every name in `refs` answers to a recipe of `store`.
pub open spec fn all_resolve(store: Seq<RecipeView>, refs: Seq<Seq<char>>) -> bool {
    forall|k: int| 0 <= k < refs.len() ==> find_recipe(store, #[trigger] refs[k]) is Some
}

/// The recipes that the names of `refs` stand for in `store`.
pub open spec fn resolved(store: Seq<RecipeView>, refs: Seq<Seq<char>>) -> Seq<RecipeView> {
    refs.map_values(|r: Seq<char>| store[find_recipe(store, r)->Some_0])
}

pub open spec fn recipes_view(v: Seq<Recipe>) -> Seq<RecipeView> {
    v.map_values(|r: Recipe| r@)
}

pub open spec fn ingredients_view(v: Seq<Ingredient>) -> Seq<IngredientView> {
    v.map_values(|i: Ingredient| i@)
}

proof fn lemma_find_recipe(store: Seq<RecipeView>, reference: Seq<char>, i: int)
    requires
        0 <= i < store.len(),
        answers_to(store[i], reference),
        forall|j: int| 0 <= j < i ==> !answers_to(#[trigger] store[j], reference),
    ensures
        find_recipe(store, reference) == Some(i),
{
    reveal(find_recipe);
    let k = find_recipe(store, reference)->Some_0;
    assert(answers_to(store[i], reference));
    if k < i {
        assert(!answers_to(store[k], reference));
    } else if k > i {
        assert(!answers_to(store[i], reference));
    }
}

/// The place in `store` of the first recipe that answers to `reference`,
/// that is whose storage key is the key of `reference`.
pub fn find_in_store(store: &Vec<Recipe>, reference: &str) -> (r: Option<usize>)
    ensures
        r matches Some(i) ==> i < store.len() && find_recipe(recipes_view(store@), reference@) == Some(i as int),
        r is None ==> find_recipe(recipes_view(store@), reference@) is None,
{
    let ghost sv = recipes_view(store@);
    let mut i: usize = 0;
    while i < store.len()
        invariant
            sv == recipes_view(store@),
            i <= store.len(),
            forall|j: int| 0 <= j < i ==> !answers_to(#[trigger] sv[j], reference@),
        decreases store.len() - i,
    {
        if answers_to_name(&store[i], reference) {
            proof { lemma_find_recipe(sv, reference@, i as int); }
            return Some(i);
        }
        i = i + 1;
    }
    proof { reveal(find_recipe); }
    None
}

/// Whether `out` holds the grocery of `x` already.
fn has_grocery_exec(out: &Vec<Ingredient>, x: &Ingredient) -> (r: bool)
    ensures
        r == has_grocery(ingredients_view(out@), x@),
{
    let ghost ov = ingredients_view(out@);
    let mut i: usize = 0;
    while i < out.len()
        invariant
            ov == ingredients_view(out@),
            i <= out.len(),
            forall|j: int| 0 <= j < i ==> !same_grocery(#[trigger] ov[j], x@),
        decreases out.len() - i,
    {
        if out[i].unit() == x.unit() && same_text(out[i].name(), x.name()) {
            assert(same_grocery(ov[i as int], x@));
            return true;
        }
        i = i + 1;
    }
    false
}

/// Adds the ingredients of `items` to the grocery list `out` of `prefix`.
fn merge(out: &mut Vec<Ingredient>, items: &Vec<Ingredient>, Ghost(prefix): Ghost<Seq<IngredientView>>)
    requires
        ingredients_view(old(out)@) == dedup(prefix),
    ensures
        ingredients_view(final(out)@) == dedup(prefix + ingredients_view(items@)),
{
    let ghost iv = ingredients_view(items@);
    let mut i: usize = 0;
    while i < items.len()
        invariant
            iv == ingredients_view(items@),
            i <= items.len(),
            ingredients_view(out@) == dedup(prefix + iv.subrange(0, i as int)),
        decreases items.len() - i,
    {
        let ghost s = prefix + iv.subrange(0, i + 1);
        assert(s.drop_last() == prefix + iv.subrange(0, i as int));
        assert(s.last() == items[i as int]@);
        if !has_grocery_exec(out, &items[i]) {
            let ghost before = out@;
            out.push(items[i].clone());
            assert(ingredients_view(out@) == ingredients_view(before).push(items[i as int]@));
        }
        i = i + 1;
    }
    assert(iv == iv.subrange(0, items.len() as int));
}

/// The grocery list of the recipes: every ingredient of every recipe, in
/// order, with only the first of each name and unit kept.
pub fn collect_groceries(recipes: &Vec<Recipe>) -> (r: Vec<Ingredient>)
    ensures
        ingredients_view(r@) == groceries_of(recipes_view(recipes@)),
{
    let ghost rv = recipes_view(recipes@);
    let mut out: Vec<Ingredient> = Vec::new();
    let mut k: usize = 0;
    assert(ingredients_view(out@) =~= Seq::<IngredientView>::empty());
    while k < recipes.len()
        invariant
            rv == recipes_view(recipes@),
            k <= recipes.len(),
            ingredients_view(out@) == dedup(all_ingredients(rv.subrange(0, k as int))),
        decreases recipes.len() - k,
    {
        let ghost p = rv.subrange(0, k + 1);
        assert(p.drop_last() == rv.subrange(0, k as int));
        merge(&mut out, recipes[k].ingredients(), Ghost(all_ingredients(rv.subrange(0, k as int))));
        assert(all_ingredients(p) == all_ingredients(rv.subrange(0, k as int)) + rv[k as int].ingredients);
        k = k + 1;
    }
    assert(rv == rv.subrange(0, recipes.len() as int));
    out
}

/// What a plan holds, as plain sequences: its date, the recipe names of
/// each day in week order, and its grocery list.
pub struct PlanView {
    pub name: Seq<char>,
    pub days: Seq<Seq<Seq<char>>>,
    pub groceries: Seq<IngredientView>,
}

/// Why a plan's grocery list could not be compiled.
#[derive(Debug)]
pub enum GroceryError {
    /// No stored recipe answers to this name.
    RecipeNotFound(String),
}

/// Recipes assigned by name to the days of one week, named by a date
/// (`2022-07-31`), and the grocery list compiled from them.
#[derive(Debug)]
pub struct Plan {
    name: String,
    days: Vec<Vec<String>>,
    groceries: Vec<Ingredient>,
}

impl View for Plan {
    type V = PlanView;

    closed spec fn view(&self) -> PlanView {
        PlanView {
            name: self.name@,
            days: self.days.deep_view(),
            groceries: ingredients_view(self.groceries@),
        }
    }
}

/// The path of the file that holds the plan called `name` in `dir`.
pub open spec fn plan_path(dir: Seq<char>, name: Seq<char>) -> Seq<char> {
    join_path(dir, name + ".yaml"@)
}

impl Plan {
    #[verifier::type_invariant]
    spec fn inv(&self) -> bool {
        self.days@.len() == 7
    }

    /// An empty plan for the date `name`.
    pub fn new(name: String) -> (r: Plan)
        ensures
            r@.name == name@,
            r@.days == Seq::new(7, |i: int| Seq::<Seq<char>>::empty()),
            r@.groceries.len() == 0,
    {
        let mut days: Vec<Vec<String>> = Vec::new();
        let mut i: usize = 0;
        while i < 7
            invariant
                i <= 7,
                days@.len() == i,
                forall|j: int| 0 <= j < i ==> (#[trigger] days@[j])@.len() == 0,
            decreases 7 - i,
        {
            days.push(Vec::new());
            i = i + 1;
        }
        assert forall|j: int| 0 <= j < 7 implies days.deep_view()[j] == Seq::<Seq<char>>::empty() by {
            assert(days.deep_view()[j] =~= Seq::<Seq<char>>::empty());
        }
        assert(days.deep_view() =~= Seq::new(7, |i: int| Seq::<Seq<char>>::empty()));
        let r = Plan { name, days, groceries: Vec::new() };
        assert(r@.groceries =~= Seq::<IngredientView>::empty());
        r
    }

    pub fn name(&self) -> (r: &str)
        ensures
            r@ == self@.name,
    {
        self.name.as_str()
    }

    /// The recipe names assigned to `day`, in the order they were added.
    pub fn recipes_for(&self, day: Weekday) -> (r: &Vec<String>)
        ensures
            self@.days.len() == 7,
            r.deep_view() == self@.days[day_index(day)],
    {
        proof { use_type_invariant(self); }
        &self.days[day.index()]
    }

    /// Assigns the recipe called `recipe` to `day`, after those already there.
    pub fn add_recipe(&mut self, day: Weekday, recipe: String)
        ensures
            final(self)@.name == old(self)@.name,
            final(self)@.groceries == old(self)@.groceries,
            final(self)@.days == old(self)@.days.update(day_index(day), old(self)@.days[day_index(day)].push(recipe@)),
    {
        proof { use_type_invariant(&*self); }
        let ghost od = self.days.deep_view();
        let i = day.index();
        let mut days: Vec<Vec<String>> = Vec::new();
        let mut k: usize = 0;
        while k < 7
            invariant
                od == self.days.deep_view(),
                od.len() == 7,
                k <= 7,
                days@.len() == k,
                forall|j: int| 0 <= j < k ==> (#[trigger] days@[j]).deep_view() == (if j == i { od[j].push(recipe@) } else { od[j] }),
            decreases 7 - k,
        {
            let mut list = clone_strings(&self.days[k]);
            if k == i {
                list.push(recipe.clone());
                assert(list.deep_view() =~= od[k as int].push(recipe@));
            }
            days.push(list);
            k = k + 1;
        }
        assert(days.deep_view() =~= od.update(i as int, od[i as int].push(recipe@)));
        self.days = days;
    }

    /// Every recipe name of the plan, day after day in week order, each day's
    /// in the order they were added.
    pub fn recipe_refs(&self) -> (r: Vec<String>)
        ensures
            r.deep_view() == flatten(self@.days),
    {
        proof { use_type_invariant(self); }
        let ghost dv = self.days.deep_view();
        let mut out: Vec<String> = Vec::new();
        let mut d: usize = 0;
        while d < self.days.len()
            invariant
                dv == self.days.deep_view(),
                d <= self.days.len(),
                out.deep_view() == flatten(dv.subrange(0, d as int)),
            decreases self.days.len() - d,
        {
            let ghost p = dv.subrange(0, d + 1);
            assert(p.drop_last() == dv.subrange(0, d as int));
            let ghost base = out.deep_view();
            let day = &self.days[d];
            let mut j: usize = 0;
            while j < day.len()
                invariant
                    j <= day.len(),
                    out.deep_view() == base + day.deep_view().subrange(0, j as int),
                decreases day.len() - j,
            {
                let ghost prev = out.deep_view();
                out.push(day[j].clone());
                assert(out.deep_view() =~= prev.push(day[j as int]@));
                assert(out.deep_view() =~= base + day.deep_view().subrange(0, j + 1));
                j = j + 1;
            }
            assert(day.deep_view() == day.deep_view().subrange(0, day.len() as int));
            assert(p.last() == day.deep_view());
            d = d + 1;
        }
        assert(dv == dv.subrange(0, self.days.len() as int));
        out
    }

    /// The recipes that the plan's names stand for in `store`, in the order
    /// of `recipe_refs`; fails on the first name that no recipe answers to.
    pub fn to_recipes(&self, store: &Vec<Recipe>) -> (r: Result<Vec<Recipe>, GroceryError>)
        ensures
            r is Ok <==> all_resolve(recipes_view(store@), flatten(self@.days)),
            match r {
                Ok(v) => recipes_view(v@) == resolved(recipes_view(store@), flatten(self@.days)),
                Err(GroceryError::RecipeNotFound(n)) => exists|k: int|
                    0 <= k < flatten(self@.days).len() && #[trigger] flatten(self@.days)[k] == n@
                        && find_recipe(recipes_view(store@), n@) is None,
            },
    {
        let refs = self.recipe_refs();
        let ghost rv = refs.deep_view();
        let ghost sv = recipes_view(store@);
        let mut out: Vec<Recipe> = Vec::new();
        let mut k: usize = 0;
        while k < refs.len()
            invariant
                rv == refs.deep_view(),
                rv == flatten(self@.days),
                sv == recipes_view(store@),
                k <= refs.len(),
                out@.len() == k,
                forall|j: int| 0 <= j < k ==> find_recipe(sv, #[trigger] rv[j]) is Some,
                forall|j: int| 0 <= j < k ==> (#[trigger] out@[j])@ == sv[find_recipe(sv, rv[j])->Some_0],
            decreases refs.len() - k,
        {
            match find_in_store(store, refs[k].as_str()) {
                None => {
                    assert(find_recipe(sv, rv[k as int]) is None);
                    assert(!all_resolve(sv, rv));
                    let name = refs[k].clone();
                    assert(name@ == rv[k as int]);

                    return Err(GroceryError::RecipeNotFound(name));
                },
                Some(i) => {
                    out.push(store[i].clone());
                },
            }
            k = k + 1;
        }
        assert(recipes_view(out@) =~= resolved(sv, rv));
        Ok(out)
    }

    /// Compiles the plan's grocery list from the recipes of `store`: every
    /// ingredient of every recipe named, with only the first of each name and
    /// unit kept. Where a name answers to no recipe, nothing changes.
    pub fn compile_groceries(&mut self, store: &Vec<Recipe>) -> (r: Result<(), GroceryError>)
        ensures
            r is Ok <==> all_resolve(recipes_view(store@), flatten(old(self)@.days)),
            final(self)@.name == old(self)@.name,
            final(self)@.days == old(self)@.days,
            r is Ok ==> final(self)@.groceries == groceries_of(
                resolved(recipes_view(store@), flatten(old(self)@.days)),
            ),
            r is Err ==> final(self)@.groceries == old(self)@.groceries,
            r matches Err(GroceryError::RecipeNotFound(n)) ==> exists|k: int|
                0 <= k < flatten(old(self)@.days).len() && #[trigger] flatten(old(self)@.days)[k] == n@
                    && find_recipe(recipes_view(store@), n@) is None,
    {
        proof { use_type_invariant(&*self); }
        let recipes = match self.to_recipes(store) {
            Ok(v) => v,
            Err(e) => return Err(e),
        };
        self.groceries = collect_groceries(&recipes);
        Ok(())
    }

    /// The compiled grocery list.
    pub fn groceries(&self) -> (r: &Vec<Ingredient>)
        ensures
            ingredients_view(r@) == self@.groceries,
    {
        &self.groceries
    }

    /// The grocery list as numbered table rows.
    pub fn get_grocery_table(&self) -> (r: Vec<GroceryRow>)
        ensures
            r@.len() == self@.groceries.len(),
            forall|i: int| 0 <= i < r@.len() ==> {
                &&& (#[trigger] r@[i]).Id == i
                &&& r@[i].Amount@ == self@.groceries[i].amount
                &&& r@[i].Unit == self@.groceries[i].unit
                &&& r@[i].Ingredient@ == self@.groceries[i].name
            },
    {
        let mut rows: Vec<GroceryRow> = Vec::new();
        let mut i: usize = 0;
        while i < self.groceries.len()
            invariant
                i <= self.groceries.len(),
                rows@.len() == i,
                forall|j: int| 0 <= j < i ==> {
                    &&& (#[trigger] rows@[j]).Id == j
                    &&& rows@[j].Amount@ == self@.groceries[j].amount
                    &&& rows@[j].Unit == self@.groceries[j].unit
                    &&& rows@[j].Ingredient@ == self@.groceries[j].name
                },
            decreases self.groceries.len() - i,
        {
            let g = &self.groceries[i];
            rows.push(GroceryRow {
                Id: i,
                Amount: g.amount().clone(),
                Unit: g.unit(),
                Ingredient: String::from_str(g.name()),
            });
            i = i + 1;
        }
        rows
    }

    /// The path of the file that holds this plan in `plan_dir`.
    pub fn out_path(&self, plan_dir: &str) -> (r: String)
        ensures
            r@ == plan_path(plan_dir@, self@.name),
    {
        let mut file = String::from_str(self.name.as_str());
        file.append(".yaml");
        path_in(plan_dir, file.as_str())
    }
}

/// The order of `String`: `a` comes no later than `b` where `a` is a prefix
/// of `b` or, at the first place where they differ, holds the smaller
/// character.
pub open spec fn text_le(a: Seq<char>, b: Seq<char>) -> bool
    decreases a.len(),
{
    if a.len() == 0 {
        true
    } else if b.len() == 0 {
        false
    } else if a[0] != b[0] {
        (a[0] as u32) < (b[0] as u32)
    } else {
        text_le(a.drop_first(), b.drop_first())
    }
}

/// Whether the strings stand in ascending order.
pub open spec fn ascending(s: Seq<Seq<char>>) -> bool {
    forall|i: int, j: int| 0 <= i < j < s.len() ==> text_le(#[trigger] s[i], #[trigger] s[j])
}

/// The last `m` strings of `s`, last first.
pub open spec fn last_first(s: Seq<Seq<char>>, m: nat) -> Seq<Seq<char>> {
    Seq::new(m, |j: int| s[s.len() - 1 - j])
}

/// Relies on `slice::sort` of `String`s: the same strings, in ascending
/// order of `String`'s `Ord`.
#[verifier::external_body]
fn sort_texts(v: &mut Vec<String>)
    ensures
        final(v).deep_view().to_multiset() == old(v).deep_view().to_multiset(),
        forall|i: int, j: int|
            0 <= i < j < final(v)@.len() ==> text_le(#[trigger] final(v)@[i]@, #[trigger] final(v)@[j]@),
{
    v.sort()
}

/// The `n` latest of the plan names, latest first: the names in descending
/// order, cut to at most `n`.
pub fn latest_plan_names(names: Vec<String>, n: usize) -> (r: Vec<String>)
    ensures
        r@.len() == if n < names@.len() { n as int } else { names@.len() as int },
        forall|i: int, j: int| 0 <= i < j < r@.len() ==> text_le(#[trigger] r@[j]@, #[trigger] r@[i]@),
        forall|i: int| 0 <= i < r@.len() ==> names.deep_view().contains(#[trigger] r@[i]@),
        exists|s: Seq<Seq<char>>|
            s.to_multiset() == names.deep_view().to_multiset() && ascending(s)
                && r.deep_view() == last_first(s, r@.len()),
        r@.len() > 0 ==> forall|k: int| 0 <= k < names@.len() ==> r.deep_view().contains(#[trigger] names@[k]@)
            || text_le(names@[k]@, r@[r@.len() - 1]@),
{
    let mut sorted = names;
    sort_texts(&mut sorted);
    let ghost sv = sorted.deep_view();
    proof {
        broadcast use vstd::seq_lib::group_to_multiset_ensures;
        assert forall|x: Seq<char>| sv.contains(x) <==> names.deep_view().contains(x) by {
            assert(sv.to_multiset().count(x) == names.deep_view().to_multiset().count(x));
        }
        assert(sv.len() == sv.to_multiset().len());
        assert(names.deep_view().len() == names.deep_view().to_multiset().len());
    }
    let len = sorted.len();
    let m = if n < len { n } else { len };
    let mut out: Vec<String> = Vec::new();
    let mut i: usize = 0;
    while i < m
        invariant
            sv == sorted.deep_view(),
            len == sorted@.len(),
            m <= len,
            i <= m,
            out@.len() == i,
            forall|j: int| 0 <= j < i ==> (#[trigger] out@[j])@ == sorted@[len - 1 - j]@,
        decreases m - i,
    {
        out.push(sorted[len - 1 - i].clone());
        i = i + 1;
    }
    proof {
        assert forall|i: int| 0 <= i < out@.len() implies names.deep_view().contains(#[trigger] out@[i]@) by {
            assert(sv[len - 1 - i] == out@[i]@);
            assert(sv.contains(out@[i]@));
        }
        assert(out.deep_view() =~= last_first(sv, m as nat));
        assert(ascending(sv));
        if m > 0 {
            assert forall|k: int| 0 <= k < names@.len() implies out.deep_view().contains(#[trigger] names@[k]@)
                || text_le(names@[k]@, out@[out@.len() - 1]@) by {
                assert(names.deep_view()[k] == names@[k]@);
                assert(sv.contains(names@[k]@));
                let p = choose|p: int| 0 <= p < sv.len() && sv[p] == names@[k]@;
                if p >= len - m {
                    assert(out.deep_view()[len - 1 - p] == names@[k]@);
                } else {
                    assert(out@[m - 1]@ == sorted@[len - m]@);
                    assert(text_le(sorted@[p]@, sorted@[len - m]@));
                }
            }
        }
    }
    out
}

/// A grocery as a numbered row of the grocery table.
#[allow(non_snake_case)]
#[derive(Debug)]
pub struct GroceryRow {
    pub Id: usize,
    pub Amount: Amount,
    pub Unit: Unit,
    pub Ingredient: String,
}

/// A plan as one row of the plans table: its date, then for each day its
/// recipe names, one per line.
#[allow(non_snake_case)]
pub struct PlanRow {
    pub Date: String,
    pub Sunday: String,
    pub Monday: String,
    pub Tuesday: String,
    pub Wednesday: String,
    pub Thursday: String,
    pub Friday: String,
    pub Saturday: String,
}

/// The names of a day as one cell of the plans table.
pub open spec fn day_cell(names: Seq<Seq<char>>) -> Seq<char> {
    join(names, "\n "@)
}

impl PlanRow {
    pub fn from(p: &Plan) -> (r: PlanRow)
        ensures
            r.Date@ == p@.name,
            r.Sunday@ == day_cell(p@.days[0]),
            r.Monday@ == day_cell(p@.days[1]),
            r.Tuesday@ == day_cell(p@.days[2]),
            r.Wednesday@ == day_cell(p@.days[3]),
            r.Thursday@ == day_cell(p@.days[4]),
            r.Friday@ == day_cell(p@.days[5]),
            r.Saturday@ == day_cell(p@.days[6]),
    {
        PlanRow {
            Date: String::from_str(p.name()),
            Sunday: joined(p.recipes_for(Weekday::Sunday), "\n "),
            Monday: joined(p.recipes_for(Weekday::Monday), "\n "),
            Tuesday: joined(p.recipes_for(Weekday::Tuesday), "\n "),
            Wednesday: joined(p.recipes_for(Weekday::Wednesday), "\n "),
            Thursday: joined(p.recipes_for(Weekday::Thursday), "\n "),
            Friday: joined(p.recipes_for(Weekday::Friday), "\n "),
            Saturday: joined(p.recipes_for(Weekday::Saturday), "\n "),
        }
    }
}

} // verus!
