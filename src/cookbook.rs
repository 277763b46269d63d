use vstd::prelude::*;

use crate::diet::Diet;

verus! {

/// A read-only, ordered list of recipes.
#[derive(Debug)]
pub struct Cookbook {
    recipes: Vec<Recipe>,
}

/// A named dish for one diet.
#[derive(Debug)]
pub struct Recipe {
    name: String,
    diet: Diet,
}

/// What a recipe is, seen from outside.
pub struct RecipeModel {
    pub name: Seq<char>,
    pub diet: Diet,
}

impl View for Recipe {
    type V = RecipeModel;

    closed spec fn view(&self) -> RecipeModel {
        RecipeModel { name: self.name@, diet: self.diet }
    }
}

/// Whether `k` is the first position of `recipes` whose diet is `d`.
pub open spec fn is_first_for_diet(recipes: Seq<Recipe>, d: Diet, k: int) -> bool {
    &&& 0 <= k < recipes.len()
    &&& recipes[k]@.diet == d
    &&& forall|j: int| 0 <= j < k ==> recipes[j]@.diet != d
}

impl Cookbook {
    /// The cookbook with chowder (shellfish) and then cioppino (fish).
    pub fn new() -> (c: Cookbook)
        ensures
            c.recipe_seq().len() == 2,
            c.recipe_seq()[0]@.name == "chowder"@,
            c.recipe_seq()[0]@.diet == Diet::Shellfish,
            c.recipe_seq()[1]@.name == "cioppino"@,
            c.recipe_seq()[1]@.diet == Diet::Fish,
    {
        let chowder = Recipe::new(String::from_str("chowder"), Diet::Shellfish);
        let cioppino = Recipe::new(String::from_str("cioppino"), Diet::Fish);
        proof {
            reveal_strlit("chowder");
            reveal_strlit("cioppino");
        }
        Cookbook { recipes: vec![chowder, cioppino] }
    }

    /// The recipes, in their stored order.
    pub closed spec fn recipe_seq(&self) -> Seq<Recipe> {
        self.recipes@
    }

    /// The recipes, in their stored order.
    pub fn recipes(&self) -> (r: &Vec<Recipe>)
        ensures
            r@ == self.recipe_seq(),
    {
        &self.recipes
    }
}

impl Recipe {
    pub fn new(name: String, diet: Diet) -> (r: Recipe)
        ensures
            r@.name == name@,
            r@.diet == diet,
    {
        Recipe { name, diet }
    }

    pub fn diet(&self) -> (d: Diet)
        ensures
            d == self@.diet,
    {
        self.diet
    }

    pub fn name(&self) -> (n: &String)
        ensures
            n@ == self@.name,
    {
        &self.name
    }
}

} // verus!
