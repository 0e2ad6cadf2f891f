//! Recipes, the file names they are stored under, and the short forms in
//! which they are listed.
use vstd::prelude::*;
use crate::text::{same_text, replace_char, replaced, join, joined, pad_right, push_char, trim, trimmed};
use crate::ingredient::{Ingredient, IngredientView};

verus! {

/// What a recipe holds, as plain sequences.
pub struct RecipeView {
    pub name: Seq<char>,
    pub tags: Seq<Seq<char>>,
    pub ingredients: Seq<IngredientView>,
    pub steps: Seq<Seq<char>>,
}

/// A named recipe: free-text tags, the ingredients, and the steps in order.
/// Its name is never empty.
#[derive(Debug)]
pub struct Recipe {
    name: String,
    tags: Vec<String>,
    ingredients: Vec<Ingredient>,
    steps: Vec<String>,
}

impl View for Recipe {
    type V = RecipeView;

    closed spec fn view(&self) -> RecipeView {
        RecipeView {
            name: self.name@,
            tags: self.tags.deep_view(),
            ingredients: self.ingredients@.map_values(|i: Ingredient| i@),
            steps: self.steps.deep_view(),
        }
    }
}

/// The extension of the files that recipes and plans are stored in.
pub open spec fn file_extension() -> Seq<char> {
    ".yaml"@
}

/// The base of the file name a recipe is stored under: its name with each
/// space turned into a hyphen.
pub open spec fn storage_key(name: Seq<char>) -> Seq<char> {
    replace_char(name, ' ', '-')
}

/// Deriving the storage key of a storage key changes nothing.
pub proof fn lemma_storage_key_idempotent(name: Seq<char>)
    ensures
        storage_key(storage_key(name)) == storage_key(name),
{
    assert(storage_key(storage_key(name)) =~= storage_key(name));
}

/// Two names without hyphens that have the same storage key are the same
/// name (a space and a hyphen at one place are the only collision).
pub proof fn lemma_storage_key_injective(a: Seq<char>, b: Seq<char>)
    requires
        forall|i: int| 0 <= i < a.len() ==> a[i] != '-',
        forall|i: int| 0 <= i < b.len() ==> b[i] != '-',
        storage_key(a) == storage_key(b),
    ensures
        a == b,
{
    assert(a.len() == storage_key(a).len());
    assert(b.len() == storage_key(b).len());
    assert forall|i: int| 0 <= i < a.len() implies a[i] == b[i] by {
        assert(storage_key(a)[i] == (if a[i] == ' ' { '-' } else { a[i] }));
        assert(storage_key(b)[i] == (if b[i] == ' ' { '-' } else { b[i] }));
    }
    assert(a =~= b);
}

/// `file` inside directory `dir`: a separator is put between them unless
/// `dir` is empty or already ends with one.
pub open spec fn join_path(dir: Seq<char>, file: Seq<char>) -> Seq<char> {
    if dir.len() == 0 {
        file
    } else if dir.last() == '/' {
        dir + file
    } else {
        dir + "/"@ + file
    }
}

/// The path of the file that holds the recipe called `name` in `dir`.
pub open spec fn recipe_path(dir: Seq<char>, name: Seq<char>) -> Seq<char> {
    join_path(dir, storage_key(name) + file_extension())
}

/// The name of a recipe as it is listed: hyphens shown as spaces.
pub open spec fn display_name(name: Seq<char>) -> Seq<char> {
    replace_char(name, '-', ' ')
}

/// The one-line summary of a recipe: its shown name padded to thirty
/// characters, then ` -- ` and its tags separated by commas.
pub open spec fn summary_of(r: RecipeView) -> Seq<char> {
    pad_right(display_name(r.name), 30) + " -- "@ + join(r.tags, ", "@)
}

/// The name under which a recipe is stored: its name with each space turned
/// into a hyphen.
pub fn recipe_key(name: &str) -> (r: String)
    ensures
        r@ == storage_key(name@),
{
    replaced(name, ' ', '-')
}

/// `file` inside directory `dir`.
pub fn path_in(dir: &str, file: &str) -> (r: String)
    ensures
        r@ == join_path(dir@, file@),
{
    let n = dir.unicode_len();
    let mut out = String::from_str(dir);
    if n > 0 && dir.get_char(n - 1) != '/' {
        out.append("/");
    }
    out.append(file);
    out
}

/// The path of the file that holds the recipe called `name` in
/// `recipe_dir`, which must not be blank.
pub fn get_recipe_out_path(recipe_dir: &str, name: &str) -> (r: String)
    requires
        trim(recipe_dir@).len() > 0,
    ensures
        r@ == recipe_path(recipe_dir@, name@),
{
    let mut file = recipe_key(name);
    file.append(".yaml");
    path_in(recipe_dir, file.as_str())
}

pub(crate) fn clone_strings(v: &Vec<String>) -> (r: Vec<String>)
    ensures
        r.deep_view() == v.deep_view(),
{
    let mut out: Vec<String> = Vec::new();
    let mut i: usize = 0;
    while i < v.len()
        invariant
            i <= v.len(),
            out.deep_view() == v.deep_view().subrange(0, i as int),
        decreases v.len() - i,
    {
        out.push(v[i].clone());
        assert(v.deep_view().subrange(0, i + 1) == v.deep_view().subrange(0, i as int).push(v[i as int]@));
        i = i + 1;
    }
    assert(v.deep_view() == v.deep_view().subrange(0, v.len() as int));
    out
}

fn clone_ingredients(v: &Vec<Ingredient>) -> (r: Vec<Ingredient>)
    ensures
        r@.map_values(|i: Ingredient| i@) == v@.map_values(|i: Ingredient| i@),
{
    let mut out: Vec<Ingredient> = Vec::new();
    let mut i: usize = 0;
    while i < v.len()
        invariant
            i <= v.len(),
            out.len() == i,
            forall|j: int| 0 <= j < i ==> #[trigger] out@[j]@ == v@[j]@,
        decreases v.len() - i,
    {
        out.push(v[i].clone());
        i = i + 1;
    }
    assert(out@.map_values(|i: Ingredient| i@) =~= v@.map_values(|i: Ingredient| i@));
    out
}

/// Where the first `--` of `s` starts; the length of `s` where it holds none.
pub open spec fn first_dashes(s: Seq<char>) -> nat
    decreases s.len(),
{
    if s.len() < 2 {
        s.len()
    } else if s[0] == '-' && s[1] == '-' {
        0
    } else {
        1 + first_dashes(s.drop_first())
    }
}

/// The storage name of the recipe a summary line stands for: the part
/// before the first `--`, trimmed, with each space turned into a hyphen.
pub open spec fn name_of_summary(s: Seq<char>) -> Seq<char> {
    storage_key(trim(s.subrange(0, first_dashes(s) as int)))
}

/// Whether the recipe is the one stored under the name `reference`: whether
/// their storage keys agree.
pub fn answers_to_name(recipe: &Recipe, reference: &str) -> (r: bool)
    ensures
        r == (storage_key(recipe@.name) == storage_key(reference@)),
{
    let a = recipe_key(recipe.name());
    let b = recipe_key(reference);
    same_text(a.as_str(), b.as_str())
}

/// The storage name of the recipe that a summary line stands for.
pub fn recipe_name_from_summary(s: &str) -> (r: Option<String>)
    ensures
        r matches Some(n) && n@ == name_of_summary(s@),
{
    let n = s.unicode_len();
    let mut i: usize = 0;
    assert(s@ == s@.subrange(0, n as int));
    while i < n && i + 1 < n && !(s.get_char(i) == '-' && s.get_char(i + 1) == '-')
        invariant
            n == s@.len(),
            i <= n,
            first_dashes(s@) == i + first_dashes(s@.subrange(i as int, n as int)),
        decreases n - i,
    {
        assert(s@.subrange(i as int, n as int).drop_first() == s@.subrange(i + 1, n as int));
        i = i + 1;
    }
    let k: usize = if i < n && i + 1 < n { i } else { n };
    assert(first_dashes(s@) == k);
    let head = s.substring_char(0, k);
    let t = trimmed(head);
    Some(recipe_key(t.as_str()))
}

/// The tags typed on one line, separated by a comma and a space.
pub open spec fn tags_of(s: Seq<char>) -> Seq<Seq<char>>
    decreases s.len(),
{
    if s.len() == 0 {
        seq![Seq::empty()]
    } else if s.len() >= 2 && s[0] == ',' && s[1] == ' ' {
        seq![Seq::<char>::empty()] + tags_of(s.subrange(2, s.len() as int))
    } else {
        let p = tags_of(s.drop_first());
        p.update(0, seq![s[0]] + p[0])
    }
}

proof fn lemma_tags_nonempty(s: Seq<char>)
    ensures
        tags_of(s).len() >= 1,
    decreases s.len(),
{
    if s.len() >= 2 && s[0] == ',' && s[1] == ' ' {
        lemma_tags_nonempty(s.subrange(2, s.len() as int));
    } else if s.len() > 0 {
        lemma_tags_nonempty(s.drop_first());
    }
}

/// The tags of a line such as `soup, mealprep`.
pub fn split_tags(s: &str) -> (r: Vec<String>)
    ensures
        r.deep_view() == tags_of(s@),
{
    let n = s.unicode_len();
    let mut out: Vec<String> = Vec::new();
    let mut cur = String::new();
    let mut i: usize = 0;
    proof {
        lemma_tags_nonempty(s@);
        assert(s@ == s@.subrange(0, n as int));
        let q = tags_of(s@);
        assert(q =~= Seq::<Seq<char>>::empty() + seq![cur@ + q[0]] + q.drop_first());
    }
    while i < n
        invariant
            n == s@.len(),
            i <= n,
            tags_of(s@) == out.deep_view() + seq![cur@ + tags_of(s@.subrange(i as int, n as int))[0]]
                + tags_of(s@.subrange(i as int, n as int)).drop_first(),
        decreases n - i,
    {
        let ghost t = s@.subrange(i as int, n as int);
        let c = s.get_char(i);
        if c == ',' && i + 1 < n && s.get_char(i + 1) == ' ' {
            let ghost u = s@.subrange(i + 2, n as int);
            proof {
                assert(t.subrange(2, t.len() as int) == u);
                lemma_tags_nonempty(u);
                let q = tags_of(u);
                assert(tags_of(t) == seq![Seq::<char>::empty()] + q);
                assert(tags_of(t)[0] == Seq::<char>::empty());
                assert(tags_of(t).drop_first() =~= q);
                assert(cur@ + Seq::<char>::empty() =~= cur@);
                assert(q =~= seq![Seq::<char>::empty() + q[0]] + q.drop_first());
            }
            let ghost before = out.deep_view();
            let ghost cv = cur@;
            out.push(cur);
            cur = String::new();
            assert(out.deep_view() =~= before.push(cv));
            i = i + 2;
        } else {
            let ghost u = s@.subrange(i + 1, n as int);
            proof {
                assert(t.drop_first() == u);
                lemma_tags_nonempty(u);
                let q = tags_of(u);
                assert(tags_of(t) == q.update(0, seq![c] + q[0]));
                assert(tags_of(t).drop_first() =~= q.drop_first());
            }
            let ghost old_cur = cur@;
            push_char(&mut cur, c);
            proof {
                let q = tags_of(u);
                assert(cur@ + q[0] =~= old_cur + (seq![c] + q[0]));
            }
            i = i + 1;
        }
    }
    proof {
        assert(s@.subrange(n as int, n as int) =~= Seq::<char>::empty());
    }
    let ghost before = out.deep_view();
    let ghost cv = cur@;
    out.push(cur);
    proof {
        assert(out.deep_view() =~= before.push(cv));
        assert(cv + Seq::<char>::empty() =~= cv);
    }
    out
}

impl Recipe {
    #[verifier::type_invariant]
    spec fn inv(&self) -> bool {
        self.name@.len() > 0
    }

    /// A recipe with the given parts; `None` where the name is empty.
    pub fn new(name: String, tags: Vec<String>, ingredients: Vec<Ingredient>, steps: Vec<String>) -> (r: Option<Recipe>)
        ensures
            r is Some <==> name@.len() > 0,
            r matches Some(rec) ==> rec@ == (RecipeView {
                name: name@,
                tags: tags.deep_view(),
                ingredients: ingredients@.map_values(|i: Ingredient| i@),
                steps: steps.deep_view(),
            }),
    {
        if name.unicode_len() == 0 {
            None
        } else {
            Some(Recipe { name, tags, ingredients, steps })
        }
    }

    pub fn name(&self) -> (r: &str)
        ensures
            r@ == self@.name,
            r@.len() > 0,
    {
        proof { use_type_invariant(self); }
        self.name.as_str()
    }

    pub fn tags(&self) -> (r: &Vec<String>)
        ensures
            r.deep_view() == self@.tags,
    {
        &self.tags
    }

    pub fn ingredients(&self) -> (r: &Vec<Ingredient>)
        ensures
            r@.map_values(|i: Ingredient| i@) == self@.ingredients,
    {
        &self.ingredients
    }

    pub fn steps(&self) -> (r: &Vec<String>)
        ensures
            r.deep_view() == self@.steps,
    {
        &self.steps
    }

    pub fn clone(&self) -> (r: Recipe)
        ensures
            r@ == self@,
    {
        proof { use_type_invariant(self); }
        Recipe {
            name: self.name.clone(),
            tags: clone_strings(&self.tags),
            ingredients: clone_ingredients(&self.ingredients),
            steps: clone_strings(&self.steps),
        }
    }

    /// The one-line summary under which the recipe is listed.
    pub fn summary(&self) -> (r: String)
        ensures
            r@ == summary_of(self@),
    {
        let mut s = replaced(self.name.as_str(), '-', ' ');
        let ghost shown = s@;
        let n = s.unicode_len();
        let mut k: usize = n;
        while k < 30
            invariant
                n == shown.len(),
                n <= k <= 30 || (n > 30 && k == n),
                s@ == shown + Seq::new((k - n) as nat, |i: int| ' '),
            decreases 30 - k,
        {
            push_char(&mut s, ' ');
            assert(s@ == shown + Seq::new((k + 1 - n) as nat, |i: int| ' '));
            k = k + 1;
        }
        assert(s@ == pad_right(shown, 30));
        s.append(" -- ");
        let tags = joined(&self.tags, ", ");
        s.append(tags.as_str());
        s
    }

    /// The recipe as a row of the recipe listing, numbered `id`.
    pub fn to_row(self, id: usize) -> (r: RecipeRow)
        ensures
            r.ID == id,
            r.Name@ == self@.name,
            r.Tags@ == join(self@.tags, ", "@),
    {
        let tags = joined(&self.tags, ", ");
        RecipeRow { ID: id, Name: self.name, Tags: tags }
    }
}

/// A recipe as a row of the recipe listing.
#[allow(non_snake_case)]
pub struct RecipeRow {
    pub ID: usize,
    pub Name: String,
    pub Tags: String,
}

/// A step of a recipe as a row of a table, numbered from one.
#[allow(non_snake_case)]
pub struct StepRow {
    pub Step: u16,
    pub Details: String,
}

} // verus!
