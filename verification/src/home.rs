//! Recipes: how one comes in from a form, how it is kept on file, and how
//! it is held in memory with the anchor that its name gives.

use crate::text::{hyphenated, lemma_hyphenated, replace_spaces, split_lines, split_on};
use vstd::prelude::*;
use vstd::std_specs::convert::FromSpecImpl;

verus! {

/// A recipe as it is typed into a form: the ingredients are one text, with
/// one ingredient on each line.
pub struct FormRecipe {
    pub name: String,
    pub ingredients: String,
    pub recipe: String,
}

/// What a `FormRecipe` stands for.
pub struct FormRecipeView {
    pub name: Seq<char>,
    pub ingredients: Seq<char>,
    pub recipe: Seq<char>,
}

impl View for FormRecipe {
    type V = FormRecipeView;

    open spec fn view(&self) -> FormRecipeView {
        FormRecipeView { name: self.name@, ingredients: self.ingredients@, recipe: self.recipe@ }
    }
}

impl FormRecipe {
    /// The form with the name `name`, the ingredients `ingredients` and the
    /// instructions `recipe`.
    pub fn new(name: String, ingredients: String, recipe: String) -> (r: FormRecipe)
        ensures
            r@ == (FormRecipeView { name: name@, ingredients: ingredients@, recipe: recipe@ }),
    {
        FormRecipe { name, ingredients, recipe }
    }
}

/// A recipe as it is kept on file: without the anchor, which its name gives.
pub struct StoredRecipe {
    pub name: String,
    pub ingredients: Vec<String>,
    pub recipe: String,
}

/// What a `StoredRecipe` stands for.
pub struct StoredRecipeView {
    pub name: Seq<char>,
    pub ingredients: Seq<Seq<char>>,
    pub recipe: Seq<char>,
}

impl View for StoredRecipe {
    type V = StoredRecipeView;

    open spec fn view(&self) -> StoredRecipeView {
        StoredRecipeView {
            name: self.name@,
            ingredients: self.ingredients.deep_view(),
            recipe: self.recipe@,
        }
    }
}

impl StoredRecipe {
    /// The record with the name `name`, the ingredients `ingredients` and
    /// the instructions `recipe`.
    pub fn new(name: String, ingredients: Vec<String>, recipe: String) -> (r: StoredRecipe)
        ensures
            r@ == (StoredRecipeView {
                name: name@,
                ingredients: ingredients.deep_view(),
                recipe: recipe@,
            }),
    {
        StoredRecipe { name, ingredients, recipe }
    }
}

/// What a `Recipe` stands for.
pub struct RecipeView {
    pub name: Seq<char>,
    pub ingredients: Seq<Seq<char>>,
    pub recipe: Seq<char>,
    pub anchor: Seq<char>,
}

/// Whether the anchor of a recipe is the one that its name gives: the name
/// with a hyphen for each space.
pub open spec fn is_anchored(recipe: RecipeView) -> bool {
    recipe.anchor == hyphenated(recipe.name)
}

/// The recipe that a name, a list of ingredients and instructions make:
/// its anchor is the name with a hyphen for each space.
pub open spec fn recipe_of(
    name: Seq<char>,
    ingredients: Seq<Seq<char>>,
    recipe: Seq<char>,
) -> RecipeView {
    RecipeView { name, ingredients, recipe, anchor: hyphenated(name) }
}

/// The recipe that a form makes: the text of the ingredients is cut at each
/// line feed.
pub open spec fn recipe_of_form(form: FormRecipeView) -> RecipeView {
    recipe_of(form.name, split_on(form.ingredients, '\n'), form.recipe)
}

/// The recipe that a record on file makes.
pub open spec fn recipe_of_stored(stored: StoredRecipeView) -> RecipeView {
    recipe_of(stored.name, stored.ingredients, stored.recipe)
}

/// The record on file of a recipe: the recipe without its anchor.
pub open spec fn stored_of_recipe(recipe: RecipeView) -> StoredRecipeView {
    StoredRecipeView { name: recipe.name, ingredients: recipe.ingredients, recipe: recipe.recipe }
}

/// A recipe, with the anchor under which a page can link to it.
#[derive(Debug)]
pub struct Recipe {
    name: String,
    ingredients: Vec<String>,
    recipe: String,
    anchor: String,
}

impl View for Recipe {
    type V = RecipeView;

    closed spec fn view(&self) -> RecipeView {
        RecipeView {
            name: self.name@,
            ingredients: self.ingredients.deep_view(),
            recipe: self.recipe@,
            anchor: self.anchor@,
        }
    }
}

impl Recipe {
    /// Whether the anchor is the one that the name gives: the name with a
    /// hyphen for each space. Every `Recipe` that a program holds is so.
    #[verifier::type_invariant]
    pub closed spec fn wf(self) -> bool {
        self.anchor@ == hyphenated(self.name@)
    }

    /// A recipe that has the anchor that its name gives stands for one that
    /// has it too.
    pub proof fn lemma_anchored(self)
        requires
            self.wf(),
        ensures
            is_anchored(self@),
    {
    }

    /// The recipe with the name `name`, the ingredients `ingredients` and
    /// the instructions `recipe`. Its anchor is the name with a hyphen for
    /// each space.
    pub fn new(name: String, ingredients: Vec<String>, recipe: String) -> (r: Recipe)
        ensures
            r.wf(),
            r@ == recipe_of(name@, ingredients.deep_view(), recipe@),
    {
        let anchor = replace_spaces(name.as_str());
        Recipe { name, ingredients, recipe, anchor }
    }

    /// The name.
    pub fn name(&self) -> (r: &String)
        ensures
            r@ == self@.name,
    {
        &self.name
    }

    /// The ingredients, in their order.
    pub fn ingredients(&self) -> (r: &Vec<String>)
        ensures
            r.deep_view() == self@.ingredients,
    {
        &self.ingredients
    }

    /// The instructions.
    pub fn recipe(&self) -> (r: &String)
        ensures
            r@ == self@.recipe,
    {
        &self.recipe
    }

    /// The anchor: the name with a hyphen for each space.
    pub fn anchor(&self) -> (r: &String)
        ensures
            r@ == self@.anchor,
            r@ == hyphenated(self@.name),
    {
        proof {
            use_type_invariant(self);
        }
        &self.anchor
    }
}

impl Clone for Recipe {
    fn clone(&self) -> (r: Self)
        ensures
            r.wf(),
            r@ == self@,
    {
        proof {
            use_type_invariant(self);
        }
        let ingredients = self.ingredients.clone();
        assert(ingredients.deep_view() =~= self.ingredients.deep_view());
        Recipe {
            name: self.name.clone(),
            ingredients,
            recipe: self.recipe.clone(),
            anchor: self.anchor.clone(),
        }
    }
}

impl From<FormRecipe> for Recipe {
    /// The recipe that the form `tmp` makes: its ingredients are the lines
    /// of the form's text of ingredients.
    fn from(tmp: FormRecipe) -> (r: Self)
        ensures
            r.wf(),
            r@ == recipe_of_form(tmp@),
    {
        let ingredients = split_lines(tmp.ingredients.as_str());
        Self::new(tmp.name, ingredients, tmp.recipe)
    }
}

/// No function of a specification gives the recipe itself, since a
/// specification cannot make a text: what `from` returns is stated by its
/// own contract, over the recipe's view.
impl FromSpecImpl<FormRecipe> for Recipe {
    open spec fn obeys_from_spec() -> bool {
        false
    }

    open spec fn from_spec(v: FormRecipe) -> Recipe {
        arbitrary()
    }
}

impl From<StoredRecipe> for Recipe {
    /// The recipe that the record `tmp` makes.
    fn from(tmp: StoredRecipe) -> (r: Self)
        ensures
            r.wf(),
            r@ == recipe_of_stored(tmp@),
    {
        Self::new(tmp.name, tmp.ingredients, tmp.recipe)
    }
}

impl FromSpecImpl<StoredRecipe> for Recipe {
    open spec fn obeys_from_spec() -> bool {
        false
    }

    open spec fn from_spec(v: StoredRecipe) -> Recipe {
        arbitrary()
    }
}

impl From<Recipe> for StoredRecipe {
    /// The record of the recipe `tmp`: the recipe without its anchor.
    fn from(tmp: Recipe) -> (r: Self)
        ensures
            r@ == stored_of_recipe(tmp@),
    {
        Self::new(tmp.name, tmp.ingredients, tmp.recipe)
    }
}

impl FromSpecImpl<Recipe> for StoredRecipe {
    open spec fn obeys_from_spec() -> bool {
        false
    }

    open spec fn from_spec(v: Recipe) -> StoredRecipe {
        arbitrary()
    }
}

/// A recipe written to a record and made from that record again is the same
/// recipe, anchor and all.
pub proof fn lemma_recipe_round_trip(recipe: RecipeView)
    requires
        is_anchored(recipe),
    ensures
        recipe_of_stored(stored_of_recipe(recipe)) == recipe,
{
}

/// A record made into a recipe and written to a record again is the same
/// record, and the recipe between them has the anchor that its name gives.
pub proof fn lemma_stored_round_trip(stored: StoredRecipeView)
    ensures
        is_anchored(recipe_of_stored(stored)),
        stored_of_recipe(recipe_of_stored(stored)) == stored,
{
}

/// The anchor of a recipe made from a name is that name with a hyphen for
/// each space: it is as long as the name, differs from it only where the
/// name holds a space, and holds no space itself.
pub proof fn lemma_anchor(name: Seq<char>, ingredients: Seq<Seq<char>>, recipe: Seq<char>)
    ensures
        is_anchored(recipe_of(name, ingredients, recipe)),
        recipe_of(name, ingredients, recipe).anchor.len() == name.len(),
        forall|i: int|
            0 <= i < name.len() && name[i] != ' ' ==> #[trigger] recipe_of(
                name,
                ingredients,
                recipe,
            ).anchor[i] == name[i],
        forall|i: int|
            0 <= i < name.len() && name[i] == ' ' ==> #[trigger] recipe_of(
                name,
                ingredients,
                recipe,
            ).anchor[i] == '-',
        !recipe_of(name, ingredients, recipe).anchor.contains(' '),
{
    lemma_hyphenated(name);
}

} // verus!
