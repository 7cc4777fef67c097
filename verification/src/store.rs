//! The recipe book: the recipes in the order in which they were added.
//!
//! The book lives in memory. After each addition the whole book is written
//! to its file again; the writing itself is the caller's part, and the book
//! says what is to be written and what to answer when that is done.

use crate::home::{
    is_anchored, recipe_of_form, recipe_of_stored, stored_of_recipe, FormRecipe, FormRecipeView,
    Recipe, RecipeView, StoredRecipe, StoredRecipeView,
};
use crate::text::split_on;
use vstd::prelude::*;

verus! {

/// The views of the recipes `recipes`, in their order.
pub open spec fn recipes_view(recipes: Seq<Recipe>) -> Seq<RecipeView> {
    Seq::new(recipes.len(), |i: int| recipes[i]@)
}

/// The views of the records `records`, in their order.
pub open spec fn records_view(records: Seq<StoredRecipe>) -> Seq<StoredRecipeView> {
    Seq::new(records.len(), |i: int| records[i]@)
}

/// The recipes that the records `records` make, in the order of the records.
pub open spec fn loaded(records: Seq<StoredRecipeView>) -> Seq<RecipeView> {
    Seq::new(records.len(), |i: int| recipe_of_stored(records[i]))
}

/// The records of the recipes `recipes`, in the order of the recipes.
pub open spec fn saved(recipes: Seq<RecipeView>) -> Seq<StoredRecipeView> {
    Seq::new(recipes.len(), |i: int| stored_of_recipe(recipes[i]))
}

/// Why the book could not be written to its file.
#[derive(Debug, Clone, Copy, PartialEq, Eq, Structural)]
pub enum PersistError {
    /// The records could not be put into the file's format.
    Serialize,
    /// The file could not be written.
    Write,
}

/// The recipes in the order in which they were added, which is also the
/// order in which they are shown and in which they stand in the file.
pub struct RecipeStore {
    recipes: Vec<Recipe>,
}

impl View for RecipeStore {
    type V = Seq<RecipeView>;

    closed spec fn view(&self) -> Seq<RecipeView> {
        recipes_view(self.recipes@)
    }
}

impl RecipeStore {
    /// A book without recipes.
    pub fn new() -> (r: RecipeStore)
        ensures
            r@ == Seq::<RecipeView>::empty(),
    {
        let r = RecipeStore { recipes: Vec::new() };
        assert(r@ =~= Seq::<RecipeView>::empty());
        r
    }

    /// The book that the records `records` of a file make: one recipe for
    /// each record, in the order of the records.
    pub fn load(records: Vec<StoredRecipe>) -> (r: RecipeStore)
        ensures
            r@ == loaded(records_view(records@)),
    {
        let ghost given = records_view(records@);
        let mut recipes: Vec<Recipe> = Vec::new();
        for record in it: records
            invariant
                records_view(it.seq()) == given,
                recipes.len() == it.index(),
                forall|k: int|
                    0 <= k < recipes.len() ==> (#[trigger] recipes[k])@ == recipe_of_stored(
                        given[k],
                    ),
        {
            recipes.push(Recipe::from(record));
        }
        let r = RecipeStore { recipes };
        assert(r@ =~= loaded(given));
        r
    }

    /// The number of recipes.
    pub fn len(&self) -> (r: usize)
        ensures
            r == self@.len(),
    {
        self.recipes.len()
    }

    /// A copy of the recipes, in their order.
    pub fn list(&self) -> (r: Vec<Recipe>)
        ensures
            recipes_view(r@) == self@,
    {
        let mut copies: Vec<Recipe> = Vec::new();
        let mut i: usize = 0;
        while i < self.recipes.len()
            invariant
                i <= self.recipes.len(),
                copies.len() == i,
                forall|k: int|
                    0 <= k < i ==> (#[trigger] copies[k])@ == self.recipes[k]@,
            decreases self.recipes.len() - i,
        {
            copies.push(self.recipes[i].clone());
            i = i + 1;
        }
        assert(recipes_view(copies@) =~= self@);
        copies
    }

    /// Adds the recipe that the form `form` makes at the end of the book.
    /// The recipes that were there stay as they were, in their order.
    pub fn append(&mut self, form: FormRecipe)
        ensures
            final(self)@ == old(self)@.push(recipe_of_form(form@)),
    {
        self.recipes.push(Recipe::from(form));
        assert(self@ =~= old(self)@.push(recipe_of_form(form@)));
    }

    /// The records of all recipes, in their order: what the file of the
    /// book is to hold.
    pub fn stored(&self) -> (r: Vec<StoredRecipe>)
        ensures
            records_view(r@) == saved(self@),
    {
        let mut records: Vec<StoredRecipe> = Vec::new();
        let mut i: usize = 0;
        while i < self.recipes.len()
            invariant
                i <= self.recipes.len(),
                records.len() == i,
                forall|k: int|
                    0 <= k < i ==> (#[trigger] records[k])@ == stored_of_recipe(self.recipes[k]@),
            decreases self.recipes.len() - i,
        {
            records.push(StoredRecipe::from(self.recipes[i].clone()));
            i = i + 1;
        }
        assert(records_view(records@) =~= saved(self@));
        records
    }
}

/// The status of the answer when a recipe was added and the book written.
pub const STATUS_CREATED: u16 = 201;

/// The status of the answer when the book could not be written.
pub const STATUS_INTERNAL_SERVER_ERROR: u16 = 500;

/// Adds the recipe that the form `form` makes at the end of the book and
/// returns the records of all recipes, the new one last: what is now to be
/// written to the file of the book, in place of what the file held.
pub fn create_recipe(store: &mut RecipeStore, form: FormRecipe) -> (r: Vec<StoredRecipe>)
    ensures
        final(store)@ == old(store)@.push(recipe_of_form(form@)),
        records_view(r@) == saved(final(store)@),
{
    store.append(form);
    store.stored()
}

/// The answer to a request to add a recipe, once the book was written or
/// could not be written: the status and the words that go with it. The
/// recipe stays in the book in either case.
pub fn creation_reply(outcome: Result<(), PersistError>) -> (r: (u16, &'static str))
    ensures
        outcome is Ok ==> r.0 == STATUS_CREATED && r.1@ == "Recipe created"@,
        outcome is Err ==> r.0 == STATUS_INTERNAL_SERVER_ERROR && r.1@
            == "Failed to create recipe"@,
{
    match outcome {
        Ok(()) => (STATUS_CREATED, "Recipe created"),
        Err(_) => (STATUS_INTERNAL_SERVER_ERROR, "Failed to create recipe"),
    }
}

/// After a recipe was added, the last recipe of the book is the one that
/// the form makes: it has the form's name and instructions, its ingredients
/// are the lines of the form's text of ingredients, and its anchor is the
/// one that the name gives. The recipes before it are those that the book
/// held, in their order.
pub proof fn lemma_append_then_list(book: Seq<RecipeView>, form: FormRecipeView)
    ensures
        book.push(recipe_of_form(form)).len() == book.len() + 1,
        book.push(recipe_of_form(form)).last().name == form.name,
        book.push(recipe_of_form(form)).last().ingredients == split_on(form.ingredients, '\n'),
        book.push(recipe_of_form(form)).last().recipe == form.recipe,
        is_anchored(book.push(recipe_of_form(form)).last()),
        book.push(recipe_of_form(form)).drop_last() == book,
{
    assert(book.push(recipe_of_form(form)).drop_last() =~= book);
}

/// A book written to records and made from those records again is the same
/// book: the same recipes in the same order.
pub proof fn lemma_save_then_load(book: Seq<RecipeView>)
    requires
        forall|i: int| 0 <= i < book.len() ==> is_anchored(#[trigger] book[i]),
    ensures
        loaded(saved(book)) == book,
{
    assert(loaded(saved(book)) =~= book);
}

/// Records made into a book and written to records again are the same
/// records in the same order, and each recipe of the book has the anchor
/// that its name gives.
pub proof fn lemma_load_then_save(records: Seq<StoredRecipeView>)
    ensures
        saved(loaded(records)) == records,
        forall|i: int| 0 <= i < records.len() ==> is_anchored(#[trigger] loaded(records)[i]),
{
    assert(saved(loaded(records)) =~= records);
}

} // verus!
