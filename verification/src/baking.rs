//! The batch calculator: how many whole batches a pantry yields for a recipe,
//! and what is left of the pantry once they are baked.
//!
//! A recipe ingredient with quantity zero asks for nothing and so sets no
//! limit. A recipe in which no ingredient sets a limit yields no batch.

use vstd::prelude::*;
use crate::pantry::{
    distinct_names, lemma_pairs_map_keys, lemma_pairs_map_value, pairs_map, pairs_view,
    IngredientMap,
};

verus! {

/// The recipe asks for a positive quantity of `name`.
pub open spec fn limits(recipe: Map<Seq<char>, u32>, name: Seq<char>) -> bool {
    recipe.contains_key(name) && recipe[name] > 0
}

/// What the pantry holds of `name`: nothing where it has no entry.
pub open spec fn stock(pantry: Map<Seq<char>, u32>, name: Seq<char>) -> int {
    if pantry.contains_key(name) {
        pantry[name] as int
    } else {
        0
    }
}

/// The whole batches that the pantry's stock of `name` suffices for.
pub open spec fn batches_from(
    recipe: Map<Seq<char>, u32>,
    pantry: Map<Seq<char>, u32>,
    name: Seq<char>,
) -> int {
    stock(pantry, name) / (recipe[name] as int)
}

/// `count` is the number of batches the pantry yields: the least of
/// `batches_from` over the ingredients that set a limit, and zero where none
/// does.
pub open spec fn is_batch_count(
    recipe: Map<Seq<char>, u32>,
    pantry: Map<Seq<char>, u32>,
    count: int,
) -> bool {
    if exists|name: Seq<char>| limits(recipe, name) {
        &&& forall|name: Seq<char>| #[trigger]
            limits(recipe, name) ==> count <= batches_from(recipe, pantry, name)
        &&& exists|name: Seq<char>| #[trigger]
            limits(recipe, name) && count == batches_from(recipe, pantry, name)
    } else {
        count == 0
    }
}

/// The number of batches that the pantry yields for the recipe.
pub open spec fn batches(recipe: Map<Seq<char>, u32>, pantry: Map<Seq<char>, u32>) -> int {
    choose|count: int| is_batch_count(recipe, pantry, count)
}

/// What is left of the pantry's `name` after `count` batches.
pub open spec fn leftover_quantity(
    recipe: Map<Seq<char>, u32>,
    pantry: Map<Seq<char>, u32>,
    count: int,
    name: Seq<char>,
) -> int {
    if recipe.contains_key(name) {
        pantry[name] - recipe[name] * count
    } else {
        pantry[name] as int
    }
}

/// The pantry after `count` batches: the same names, each with its
/// `leftover_quantity`.
pub open spec fn leftover(
    recipe: Map<Seq<char>, u32>,
    pantry: Map<Seq<char>, u32>,
    count: int,
) -> Map<Seq<char>, u32> {
    Map::new(
        |name: Seq<char>| pantry.contains_key(name),
        |name: Seq<char>| leftover_quantity(recipe, pantry, count, name) as u32,
    )
}

/// A recipe and the pantry to bake it from.
pub struct BakingRequest {
    pub recipe: IngredientMap,
    pub pantry: IngredientMap,
}

/// The batches baked and what they left of the pantry.
pub struct BakingResult {
    pub cookies: u32,
    pub pantry: IngredientMap,
}

/// For a dividend that is not negative and a positive divisor, the quotient
/// lies between zero and the dividend, and what the divisor times the
/// quotient leaves of the dividend is less than the divisor.
pub proof fn lemma_quotient_bounds(dividend: int, divisor: int)
    by (nonlinear_arith)
    requires
        0 <= dividend,
        0 < divisor,
    ensures
        0 <= dividend / divisor <= dividend,
        0 <= dividend - divisor * (dividend / divisor) < divisor,
        (dividend - divisor * (dividend / divisor)) / divisor == 0,
{
}

/// A factor that is not negative keeps the order of two numbers.
pub proof fn lemma_product_order(factor: int, smaller: int, larger: int)
    by (nonlinear_arith)
    requires
        0 <= factor,
        smaller <= larger,
    ensures
        factor * smaller <= factor * larger,
        0 <= smaller ==> 0 <= factor * smaller,
{
}

/// Below any limiting ingredient's batches lies a batch count.
proof fn lemma_batch_count_exists(
    recipe: Map<Seq<char>, u32>,
    pantry: Map<Seq<char>, u32>,
    name: Seq<char>,
)
    requires
        limits(recipe, name),
    ensures
        exists|count: int| is_batch_count(recipe, pantry, count),
    decreases batches_from(recipe, pantry, name),
{
    let reached = batches_from(recipe, pantry, name);
    if forall|other: Seq<char>| #[trigger]
        limits(recipe, other) ==> reached <= batches_from(recipe, pantry, other) {
        assert(is_batch_count(recipe, pantry, reached));
    } else {
        let lower = choose|other: Seq<char>| #[trigger]
            limits(recipe, other) && batches_from(recipe, pantry, other) < reached;
        lemma_quotient_bounds(stock(pantry, lower), recipe[lower] as int);
        lemma_batch_count_exists(recipe, pantry, lower);
    }
}

/// Every recipe and pantry have a batch count, `batches`, and only that
/// one: the least number of batches that a limiting ingredient suffices
/// for, and zero where no ingredient sets a limit. It is a 32-bit number.
pub proof fn batches_is_the_batch_count(recipe: Map<Seq<char>, u32>, pantry: Map<Seq<char>, u32>)
    ensures
        is_batch_count(recipe, pantry, batches(recipe, pantry)),
        forall|count: int| is_batch_count(recipe, pantry, count) ==> count == batches(recipe, pantry),
        0 <= batches(recipe, pantry) <= u32::MAX,
{
    if exists|name: Seq<char>| limits(recipe, name) {
        let name = choose|name: Seq<char>| limits(recipe, name);
        lemma_batch_count_exists(recipe, pantry, name);
        let count = batches(recipe, pantry);
        let least = choose|name: Seq<char>| #[trigger]
            limits(recipe, name) && count == batches_from(recipe, pantry, name);
        lemma_quotient_bounds(stock(pantry, least), recipe[least] as int);
    } else {
        assert(is_batch_count(recipe, pantry, 0));
    }
}

/// The batches allow for each limiting ingredient: there are no more of
/// them than the stock of any such ingredient suffices for.
pub proof fn batches_is_least(
    recipe: Map<Seq<char>, u32>,
    pantry: Map<Seq<char>, u32>,
    name: Seq<char>,
)
    requires
        limits(recipe, name),
    ensures
        batches(recipe, pantry) <= stock(pantry, name) / (recipe[name] as int),
{
    batches_is_the_batch_count(recipe, pantry);
}

/// Where no limiting ingredient allows fewer than `count` batches, what is
/// left of an ingredient lies between zero and what the pantry held.
proof fn lemma_leftover_in_range(
    recipe: Map<Seq<char>, u32>,
    pantry: Map<Seq<char>, u32>,
    count: int,
    name: Seq<char>,
)
    requires
        0 <= count,
        pantry.contains_key(name),
        limits(recipe, name) ==> count <= batches_from(recipe, pantry, name),
    ensures
        0 <= leftover_quantity(recipe, pantry, count, name) <= pantry[name],
{
    if recipe.contains_key(name) {
        let asked = recipe[name] as int;
        if asked > 0 {
            lemma_quotient_bounds(pantry[name] as int, asked);
            lemma_product_order(asked, count, (pantry[name] as int) / asked);
        } else {
            assert(asked * count == 0) by (nonlinear_arith)
                requires
                    asked == 0,
            ;
        }
    }
}

/// After the batches are baked, the pantry holds the names it held. Of an
/// ingredient that the recipe names it holds the stock less the recipe's
/// quantity times the batches, which is not negative; of any other
/// ingredient it holds the stock as it was.
pub proof fn leftover_is_exact(
    recipe: Map<Seq<char>, u32>,
    pantry: Map<Seq<char>, u32>,
    name: Seq<char>,
)
    requires
        pantry.contains_key(name),
    ensures
        leftover(recipe, pantry, batches(recipe, pantry)).contains_key(name),
        recipe.contains_key(name) ==> leftover(recipe, pantry, batches(recipe, pantry))[name]
            == pantry[name] - recipe[name] * batches(recipe, pantry),
        recipe.contains_key(name) ==> 0 <= pantry[name] - recipe[name] * batches(recipe, pantry),
        !recipe.contains_key(name) ==> leftover(recipe, pantry, batches(recipe, pantry))[name]
            == pantry[name],
{
    batches_is_the_batch_count(recipe, pantry);
    lemma_leftover_in_range(recipe, pantry, batches(recipe, pantry), name);
}

/// Baking again from what was left, with the same recipe, yields no batch:
/// the first baking took every whole batch there was.
pub proof fn rebaking_yields_nothing(recipe: Map<Seq<char>, u32>, pantry: Map<Seq<char>, u32>)
    ensures
        batches(recipe, leftover(recipe, pantry, batches(recipe, pantry))) == 0,
        batches(recipe, leftover(recipe, pantry, batches(recipe, pantry))) <= batches(
            recipe,
            pantry,
        ),
{
    let count = batches(recipe, pantry);
    let rest = leftover(recipe, pantry, count);
    batches_is_the_batch_count(recipe, pantry);
    batches_is_the_batch_count(recipe, rest);
    if exists|name: Seq<char>| limits(recipe, name) {
        let least = choose|name: Seq<char>| #[trigger]
            limits(recipe, name) && count == batches_from(recipe, pantry, name);
        let asked = recipe[least] as int;
        if pantry.contains_key(least) {
            lemma_leftover_in_range(recipe, pantry, count, least);
            lemma_quotient_bounds(pantry[least] as int, asked);
        }
    }
}

impl Default for BakingResult {
    /// No batch and an empty pantry.
    fn default() -> (result: Self)
        ensures
            result.cookies == 0,
            result.pantry@ == Map::<Seq<char>, u32>::empty(),
    {
        BakingResult { cookies: 0, pantry: IngredientMap::new() }
    }
}

impl BakingResult {
    /// Bakes as many whole batches of the request's recipe as its pantry
    /// yields, and takes what they need from the pantry.
    pub fn from_request(request: BakingRequest) -> (result: BakingResult)
        ensures
            result.cookies == batches(request.recipe@, request.pantry@),
            is_batch_count(request.recipe@, request.pantry@, result.cookies as int),
            result.pantry@ == leftover(request.recipe@, request.pantry@, result.cookies as int),
            result.pantry@.dom() == request.pantry@.dom(),
            forall|name: Seq<char>| #[trigger]
                request.pantry@.contains_key(name) && request.recipe@.contains_key(name)
                    ==> result.pantry@[name] == request.pantry@[name] - request.recipe@[name]
                    * result.cookies,
            forall|name: Seq<char>| #[trigger]
                request.pantry@.contains_key(name) && !request.recipe@.contains_key(name)
                    ==> result.pantry@[name] == request.pantry@[name],
    {
        let cookies = batch_count(&request.recipe, &request.pantry);
        let pantry = take_batches(&request.recipe, &request.pantry, cookies);
        proof {
            batches_is_the_batch_count(request.recipe@, request.pantry@);
            assert forall|name: Seq<char>| request.pantry@.contains_key(name) implies pantry@[name]
                == leftover_quantity(request.recipe@, request.pantry@, cookies as int, name) by {
                lemma_leftover_in_range(request.recipe@, request.pantry@, cookies as int, name);
            }
        }
        BakingResult { cookies, pantry }
    }
}

/// Counts the batches that the pantry yields for the recipe.
pub fn batch_count(recipe: &IngredientMap, pantry: &IngredientMap) -> (count: u32)
    ensures
        count == batches(recipe@, pantry@),
        is_batch_count(recipe@, pantry@, count as int),
{
    let asked_for = recipe.len();
    let mut least: Option<u32> = None;
    let mut index: usize = 0;
    while index < asked_for
        invariant
            index <= asked_for,
            asked_for == recipe.entries().len(),
            distinct_names(recipe.entries()),
            least is None ==> forall|k: int|
                0 <= k < index ==> (#[trigger] recipe.entries()[k]).1 == 0,
            least matches Some(count) ==> {
                &&& forall|k: int|
                    0 <= k < index && (#[trigger] recipe.entries()[k]).1 > 0 ==> count
                        <= batches_from(recipe@, pantry@, recipe.entries()[k].0)
                &&& exists|k: int|
                    0 <= k < index && (#[trigger] recipe.entries()[k]).1 > 0 && count
                        == batches_from(recipe@, pantry@, recipe.entries()[k].0)
            },
        decreases asked_for - index,
    {
        let asked = recipe.quantity_at(index);
        if asked > 0 {
            let held = match pantry.get(recipe.name_at(index).as_str()) {
                Some(quantity) => quantity,
                None => 0,
            };
            let batches = held / asked;
            least = match least {
                Some(count) if count <= batches => Some(count),
                _ => Some(batches),
            };
        }
        index += 1;
    }
    proof {
        let entries = recipe.entries();
        assert forall|name: Seq<char>| limits(recipe@, name) implies exists|k: int|
            0 <= k < entries.len() && (#[trigger] entries[k]).0 == name && entries[k].1 > 0 by {
            lemma_pairs_map_keys(entries, name);
            let k = choose|k: int| 0 <= k < entries.len() && (#[trigger] entries[k]).0 == name;
            lemma_pairs_map_value(entries, k);
        }
        assert forall|k: int| 0 <= k < entries.len() && (#[trigger] entries[k]).1 > 0 implies limits(
            recipe@,
            entries[k].0,
        ) by {
            lemma_pairs_map_value(entries, k);
        }
    }
    proof {
        batches_is_the_batch_count(recipe@, pantry@);
    }
    match least {
        Some(count) => count,
        None => 0,
    }
}

/// The pantry after `count` batches of the recipe, where the pantry yields
/// that many.
fn take_batches(recipe: &IngredientMap, pantry: &IngredientMap, count: u32) -> (rest: IngredientMap)
    requires
        forall|name: Seq<char>| #[trigger]
            limits(recipe@, name) ==> count <= batches_from(recipe@, pantry@, name),
    ensures
        rest@ == leftover(recipe@, pantry@, count as int),
        forall|name: Seq<char>|
            pantry@.contains_key(name) ==> 0 <= #[trigger] leftover_quantity(
                recipe@,
                pantry@,
                count as int,
                name,
            ) <= pantry@[name],
{
    let held = pantry.len();
    let mut items: Vec<(String, u32)> = Vec::new();
    let mut index: usize = 0;
    proof {
        assert forall|name: Seq<char>| pantry@.contains_key(name) implies 0
            <= #[trigger] leftover_quantity(recipe@, pantry@, count as int, name)
            <= pantry@[name] by {
            lemma_leftover_in_range(recipe@, pantry@, count as int, name);
        }
    }
    while index < held
        invariant
            index <= held,
            held == pantry.entries().len(),
            distinct_names(pantry.entries()),
            items.len() == index,
            forall|name: Seq<char>|
                pantry@.contains_key(name) ==> 0 <= #[trigger] leftover_quantity(
                    recipe@,
                    pantry@,
                    count as int,
                    name,
                ) <= pantry@[name],
            forall|k: int|
                0 <= k < index ==> #[trigger] pairs_view(items@)[k] == (
                    pantry.entries()[k].0,
                    leftover_quantity(recipe@, pantry@, count as int, pantry.entries()[k].0) as u32,
                ),
        decreases held - index,
    {
        let name = pantry.name_at(index);
        let quantity = pantry.quantity_at(index);
        assert(0 <= leftover_quantity(recipe@, pantry@, count as int, name@) <= quantity);
        let rest = match recipe.get(name.as_str()) {
            Some(asked) => quantity - asked * count,
            None => quantity,
        };
        let ghost before = pairs_view(items@);
        items.push((name.clone(), rest));
        assert(pairs_view(items@) =~= before.push((name@, rest)));
        index += 1;
    }
    proof {
        let entries = pairs_view(items@);
        assert(distinct_names(entries));
        let target = leftover(recipe@, pantry@, count as int);
        assert forall|name: Seq<char>| pairs_map(entries).contains_key(name)
            <==> target.contains_key(name) by {
            lemma_pairs_map_keys(entries, name);
            lemma_pairs_map_keys(pantry.entries(), name);
            if pantry@.contains_key(name) {
                let k = choose|k: int|
                    0 <= k < pantry.entries().len() && (#[trigger] pantry.entries()[k]).0 == name;
                assert(entries[k].0 == name);
            }
        }
        assert forall|name: Seq<char>| pairs_map(entries).contains_key(name) implies pairs_map(
            entries,
        )[name] == target[name] by {
            lemma_pairs_map_keys(entries, name);
            let k = choose|k: int| 0 <= k < entries.len() && (#[trigger] entries[k]).0 == name;
            lemma_pairs_map_value(entries, k);
            lemma_pairs_map_value(pantry.entries(), k);
        }
    }
    IngredientMap::from_distinct(items)
}

} // verus!
