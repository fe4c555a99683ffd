//! Derivation rules: links created automatically from validated facts.
use vstd::prelude::*;
use crate::db::DbError;
use crate::l3::{Link, Page};
use crate::filter::{kept, lemma_kept_complete, lemma_kept_members, lemma_kept_prefix};
use crate::stamp::{fresh_id_avoiding, new_id, now_rfc3339, rfc3339_utc_shape, uuid_v4_shape};
use crate::text::{is_listed, listed, replace_char, replace_char_with};

verus! {

/// Errors of a derivation rule.
#[derive(Debug)]
pub enum DerivationError {
    Db(DbError),
    Payload(String),
    Time(String),
    NoActivePage,
}

/// Escaping of a label inside a JSON string: backslashes doubled, then
/// double quotes preceded by a backslash.
pub open spec fn escape_json_text(s: Seq<char>) -> Seq<char> {
    replace_char(replace_char(s, '\\', seq!['\\', '\\']), '"', seq!['\\', '"'])
}

/// Escapes a label for a JSON string: `\` becomes `\\`, then `"` becomes
/// `\"`.
pub fn escape_json(s: &str) -> (r: String)
    ensures
        r@ == escape_json_text(s@),
{
    let a = replace_char_with(s, '\\', "\\\\");
    proof {
        reveal_strlit("\\\\");
    }
    assert("\\\\"@ =~= seq!['\\', '\\']);
    let b = replace_char_with(a.as_str(), '"', "\\\"");
    proof {
        reveal_strlit("\\\"");
    }
    assert("\\\""@ =~= seq!['\\', '"']);
    b
}

/// The metadata of an item link: `{"label":"<escaped ingredient>"}`.
pub open spec fn label_metadata_text(ingredient: Seq<char>) -> Seq<char> {
    "{\"label\":\""@ + escape_json_text(ingredient) + "\"}"@
}

/// The active page, required by the rules that attach items to it.
pub fn require_active_page(page: Option<Page>) -> (r: Result<Page, DerivationError>)
    ensures
        match page {
            Some(p) => r == Ok::<Page, DerivationError>(p),
            None => r matches Err(DerivationError::NoActivePage),
        },
{
    match page {
        Some(p) => Ok(p),
        None => Err(DerivationError::NoActivePage),
    }
}

/// Rule: every validated `recipe` fact yields one shopping item per
/// ingredient, attached to the active page.
#[derive(Debug, Clone, Copy)]
pub struct RecipeToShopping;

/// The name of the recipe rule, stored in `derived_by`.
pub open spec fn recipe_rule_name() -> Seq<char> {
    "rule:recipe-to-shopping"@
}

/// The pair of links an ingredient yields: `fact -> shopping_item`
/// (`derives_to`, labelled with the ingredient) and `shopping_item -> page`
/// (`belongs_to`), both recorded at the same time by the recipe rule.
pub open spec fn ingredient_links(
    to_item: Link,
    to_page: Link,
    fact_id: Seq<char>,
    ingredient: Seq<char>,
    page_id: Seq<char>,
) -> bool {
    &&& to_item.src_kind@ == "fact"@
    &&& to_item.src_id@ == fact_id
    &&& to_item.dst_kind@ == "shopping_item"@
    &&& to_item.rel_type@ == "derives_to"@
    &&& to_item.derived_by@ == recipe_rule_name()
    &&& to_item.metadata matches Some(m) && m@ == label_metadata_text(ingredient)
    &&& to_page.src_kind@ == "shopping_item"@
    &&& to_page.src_id == to_item.dst_id
    &&& to_page.dst_kind@ == "page"@
    &&& to_page.dst_id@ == page_id
    &&& to_page.rel_type@ == "belongs_to"@
    &&& to_page.derived_by@ == recipe_rule_name()
    &&& to_page.metadata is None
    &&& to_page.created_at == to_item.created_at
}

/// The shopping items of the first `n` ingredients are pairwise distinct:
/// each ingredient has its own item.
pub open spec fn distinct_items(links: Seq<Link>, n: nat) -> bool {
    forall|i: int, j: int|
        #![trigger links[2 * i], links[2 * j]]
        0 <= i < n && 0 <= j < n && i != j ==> links[2 * i].dst_id@ != links[2 * j].dst_id@
}

/// A link made in a run: a fresh UUID as id, the run's RFC 3339 time.
pub open spec fn fresh_link(l: Link) -> bool {
    uuid_v4_shape(l.id@) && rfc3339_utc_shape(l.created_at@)
}

/// The links the rule makes for one recipe: for each ingredient, in order,
/// the pair of `ingredient_links`, every link and every shopping item with a
/// fresh UUID.
pub open spec fn recipe_links(
    links: Seq<Link>,
    fact_id: Seq<char>,
    ingredients: Seq<String>,
    page_id: Seq<char>,
) -> bool {
    &&& links.len() == 2 * ingredients.len()
    &&& forall|i: int|
        0 <= i < ingredients.len() ==> ingredient_links(
            #[trigger] links[2 * i],
            links[2 * i + 1],
            fact_id,
            ingredients[i]@,
            page_id,
        )
    &&& forall|k: int| 0 <= k < links.len() ==> fresh_link(#[trigger] links[k])
    &&& forall|i: int| 0 <= i < ingredients.len() ==> uuid_v4_shape((#[trigger] links[2 * i]).dst_id@)
    &&& distinct_items(links, ingredients.len())
}

/// The links of one recipe made at the given times (one per ingredient):
/// for each ingredient, in order, the pair of `ingredient_links` made at
/// that ingredient's time, every link and every shopping item with a fresh
/// UUID.
pub open spec fn recipe_links_at(
    links: Seq<Link>,
    fact_id: Seq<char>,
    ingredients: Seq<String>,
    page_id: Seq<char>,
    times: Seq<String>,
) -> bool {
    &&& links.len() == 2 * ingredients.len()
    &&& forall|i: int|
        0 <= i < ingredients.len() ==> ingredient_links(
            #[trigger] links[2 * i],
            links[2 * i + 1],
            fact_id,
            ingredients[i]@,
            page_id,
        )
    &&& forall|i: int| 0 <= i < ingredients.len() ==> (#[trigger] links[2 * i]).created_at == times[i]
    &&& forall|k: int| 0 <= k < links.len() ==> uuid_v4_shape((#[trigger] links[k]).id@)
    &&& forall|i: int| 0 <= i < ingredients.len() ==> uuid_v4_shape((#[trigger] links[2 * i]).dst_id@)
    &&& distinct_items(links, ingredients.len())
}

/// Links made at RFC 3339 times are fresh links of the recipe.
proof fn lemma_links_at_are_fresh(
    links: Seq<Link>,
    fact_id: Seq<char>,
    ingredients: Seq<String>,
    page_id: Seq<char>,
    times: Seq<String>,
)
    requires
        recipe_links_at(links, fact_id, ingredients, page_id, times),
        times.len() == ingredients.len(),
        forall|i: int| 0 <= i < times.len() ==> rfc3339_utc_shape(#[trigger] times[i]@),
    ensures
        recipe_links(links, fact_id, ingredients, page_id),
{
    assert forall|k: int| 0 <= k < links.len() implies fresh_link(#[trigger] links[k]) by {
        let i = k / 2;
        assert(0 <= i < ingredients.len());
        assert(links[2 * i].created_at == times[i]);
        assert(rfc3339_utc_shape(times[i]@));
        assert(uuid_v4_shape(links[k].id@));
        if k != 2 * i {
            assert(k == 2 * i + 1);
            assert(ingredient_links(
                links[2 * i],
                links[2 * i + 1],
                fact_id,
                ingredients[i]@,
                page_id,
            ));
        }
    }
}

/// Each ingredient gets its own shopping item: the items the page receives
/// (the sources of the `belongs_to` links) are pairwise distinct, one per
/// ingredient, and each is the item its ingredient's link points to.
pub proof fn lemma_one_item_per_ingredient(
    links: Seq<Link>,
    fact_id: Seq<char>,
    ingredients: Seq<String>,
    page_id: Seq<char>,
    times: Seq<String>,
)
    requires
        recipe_links_at(links, fact_id, ingredients, page_id, times),
    ensures
        forall|i: int|
            0 <= i < ingredients.len() ==> (#[trigger] links[2 * i + 1]).src_id == links[2
                * i].dst_id,
        forall|i: int, j: int|
            #![trigger links[2 * i + 1], links[2 * j + 1]]
            0 <= i < ingredients.len() && 0 <= j < ingredients.len() && i != j ==> links[2 * i
                + 1].src_id@ != links[2 * j + 1].src_id@,
{
    assert forall|i: int| 0 <= i < ingredients.len() implies (#[trigger] links[2 * i
        + 1]).src_id == links[2 * i].dst_id by {
        assert(ingredient_links(links[2 * i], links[2 * i + 1], fact_id, ingredients[i]@, page_id));
    }
    assert forall|i: int, j: int|
        0 <= i < ingredients.len() && 0 <= j < ingredients.len() && i != j implies #[trigger] links[2
        * i + 1].src_id@ != #[trigger] links[2 * j + 1].src_id@ by {
        assert(ingredient_links(links[2 * i], links[2 * i + 1], fact_id, ingredients[i]@, page_id));
        assert(ingredient_links(links[2 * j], links[2 * j + 1], fact_id, ingredients[j]@, page_id));
        assert(links[2 * i].dst_id@ != links[2 * j].dst_id@);
    }
}

/// One time per ingredient of each recipe taken.
pub open spec fn times_fit(times: Seq<Vec<String>>, pending: Seq<RecipeInput>) -> bool {
    &&& times.len() == pending.len()
    &&& forall|j: int| 0 <= j < times.len() ==> (#[trigger] times[j])@.len()
        == pending[j].ingredients@.len()
}

/// Reads the clock `n` times: the RFC 3339 times, or the first failure.
fn read_times(n: usize) -> (r: Result<Vec<String>, DerivationError>)
    ensures
        n == 0 ==> r is Ok,
        r is Err ==> r matches Err(DerivationError::Time(_)),
        r matches Ok(t) ==> t@.len() == n && forall|i: int|
            0 <= i < t@.len() ==> rfc3339_utc_shape(#[trigger] t@[i]@),
{
    let mut times: Vec<String> = Vec::new();
    let mut i: usize = 0;
    while i < n
        invariant
            i <= n,
            times@.len() == i,
            forall|k: int| 0 <= k < times@.len() ==> rfc3339_utc_shape(#[trigger] times@[k]@),
        decreases n - i,
    {
        match now_rfc3339() {
            Ok(t) => times.push(t),
            Err(e) => {
                return Err(DerivationError::Time(e));
            },
        }
        i = i + 1;
    }
    Ok(times)
}

/// A recipe fact as the rule reads it: its id, whether the user validated
/// it, and the ingredients of its payload.
#[derive(Debug)]
pub struct RecipeInput {
    pub fact_id: String,
    pub validated: bool,
    pub ingredients: Vec<String>,
}

/// Whether a run takes a recipe: it is validated and the rule has not
/// derived links from it yet.
pub open spec fn recipe_pending(r: RecipeInput, derived: Seq<String>) -> bool {
    r.validated && !listed(derived, r.fact_id@)
}

/// The recipes a run takes, in order.
pub open spec fn pending_recipes(recipes: Seq<RecipeInput>, derived: Seq<String>) -> Seq<
    RecipeInput,
> {
    kept(recipes, |r: RecipeInput| recipe_pending(r, derived))
}

/// A run's plan: one list of links per recipe taken, in order, each the
/// links of that recipe.
pub open spec fn plan_of(
    plan: Seq<Vec<Link>>,
    recipes: Seq<RecipeInput>,
    derived: Seq<String>,
    page_id: Seq<char>,
) -> bool {
    let pending = pending_recipes(recipes, derived);
    &&& plan.len() == pending.len()
    &&& forall|j: int|
        0 <= j < plan.len() ==> recipe_links(
            #[trigger] plan[j]@,
            pending[j].fact_id@,
            pending[j].ingredients@,
            page_id,
        )
}

/// A run's plan made at the given times: one list of links per recipe
/// taken, in order, each the links of that recipe at its times.
pub open spec fn plan_at(
    plan: Seq<Vec<Link>>,
    recipes: Seq<RecipeInput>,
    derived: Seq<String>,
    page_id: Seq<char>,
    times: Seq<Vec<String>>,
) -> bool {
    let pending = pending_recipes(recipes, derived);
    &&& plan.len() == pending.len()
    &&& forall|j: int|
        0 <= j < plan.len() ==> recipe_links_at(
            #[trigger] plan[j]@,
            pending[j].fact_id@,
            pending[j].ingredients@,
            page_id,
            times[j]@,
        )
}

/// Whether a plan holds a link by which the rule marks the fact `id` as
/// derived: `fact -> …`, `derives_to`, made by this rule (what a later run
/// looks up).
pub open spec fn marked(plan: Seq<Vec<Link>>, id: Seq<char>) -> bool {
    exists|j: int, k: int|
        0 <= j < plan.len() && 0 <= k < plan[j]@.len() && {
            let l = #[trigger] plan[j]@[k];
            &&& l.src_kind@ == "fact"@
            &&& l.src_id@ == id
            &&& l.rel_type@ == "derives_to"@
            &&& l.derived_by@ == recipe_rule_name()
        }
}

/// Derivation is idempotent: once the links of a run are stored, every
/// fact they mark counts as derived, and a second run takes no recipe with
/// an ingredient, so it creates no link.
pub proof fn lemma_second_run_derives_nothing(
    recipes: Seq<RecipeInput>,
    derived: Seq<String>,
    plan: Seq<Vec<Link>>,
    page_id: Seq<char>,
    derived_next: Seq<String>,
)
    requires
        plan_of(plan, recipes, derived, page_id),
        forall|x: Seq<char>| listed(derived, x) || marked(plan, x) ==> listed(derived_next, x),
    ensures
        forall|j: int|
            0 <= j < pending_recipes(recipes, derived_next).len() ==> (#[trigger] pending_recipes(
                recipes,
                derived_next,
            )[j]).ingredients@.len() == 0,
{
    let p1 = |r: RecipeInput| recipe_pending(r, derived);
    let p2 = |r: RecipeInput| recipe_pending(r, derived_next);
    let first = pending_recipes(recipes, derived);
    let second = pending_recipes(recipes, derived_next);
    lemma_kept_members(recipes, p2);
    assert forall|j: int| 0 <= j < second.len() implies (#[trigger] second[j]).ingredients@.len()
        == 0 by {
        let r = second[j];
        assert(p2(r));
        assert(recipes.contains(r));
        if r.ingredients@.len() > 0 {
            assert(!listed(derived, r.fact_id@));
            assert(p1(r));
            lemma_kept_complete(recipes, p1, r);
            let j1 = choose|j1: int| 0 <= j1 < first.len() && first[j1] == r;
            assert(recipe_links(plan[j1]@, r.fact_id@, r.ingredients@, page_id));
            let l = plan[j1]@[2 * 0int];
            assert(ingredient_links(l, plan[j1]@[2 * 0int + 1], r.fact_id@, r.ingredients@[0]@, page_id));
            assert(marked(plan, r.fact_id@));
        }
    }
}

impl RecipeToShopping {
    /// Stable identifier of the rule, stored in `derived_by`.
    pub fn name(&self) -> (r: &'static str)
        ensures
            r@ == recipe_rule_name(),
    {
        "rule:recipe-to-shopping"
    }

    /// The links a recipe yields: for each ingredient, in order, a fresh
    /// shopping item linked from the recipe and to the active page, made at
    /// the time read for that ingredient. Fails only when the clock cannot
    /// be read, which does not happen without ingredients.
    pub fn links_for_recipe(
        &self,
        fact_id: &str,
        ingredients: &Vec<String>,
        page_id: &str,
    ) -> (r: Result<Vec<Link>, DerivationError>)
        requires
            ingredients@.len() * 2 <= usize::MAX,
        ensures
            ingredients@.len() == 0 ==> (r matches Ok(links) && links@.len() == 0),
            r is Err ==> r matches Err(DerivationError::Time(_)),
            r matches Ok(links) ==> recipe_links(links@, fact_id@, ingredients@, page_id@),
    {
        let times = match read_times(ingredients.len()) {
            Ok(t) => t,
            Err(e) => {
                return Err(e);
            },
        };
        let links = self.links_for_recipe_at(fact_id, ingredients, page_id, &times);
        proof {
            lemma_links_at_are_fresh(links@, fact_id@, ingredients@, page_id@, times@);
        }
        Ok(links)
    }

    /// The links a recipe yields at the given times, `times[i]` for the
    /// `i`-th ingredient (see [`Self::links_for_recipe`], which reads them).
    pub fn links_for_recipe_at(
        &self,
        fact_id: &str,
        ingredients: &Vec<String>,
        page_id: &str,
        times: &Vec<String>,
    ) -> (links: Vec<Link>)
        requires
            ingredients@.len() * 2 <= usize::MAX,
            times@.len() == ingredients@.len(),
        ensures
            recipe_links_at(links@, fact_id@, ingredients@, page_id@, times@),
    {
        let mut links: Vec<Link> = Vec::new();
        let mut items: Vec<String> = Vec::new();
        let mut i: usize = 0;
        while i < ingredients.len()
            invariant
                i <= ingredients@.len(),
                ingredients@.len() * 2 <= usize::MAX,
                times@.len() == ingredients@.len(),
                links@.len() == 2 * i,
                items@.len() == i,
                forall|j: int| 0 <= j < i ==> #[trigger] items@[j]@ == links@[2 * j].dst_id@,
                distinct_items(links@, i as nat),
                forall|j: int|
                    0 <= j < i ==> ingredient_links(
                        #[trigger] links@[2 * j],
                        links@[2 * j + 1],
                        fact_id@,
                        ingredients@[j]@,
                        page_id@,
                    ),
                forall|j: int| 0 <= j < i ==> (#[trigger] links@[2 * j]).created_at == times@[j],
                forall|k: int| 0 <= k < links@.len() ==> uuid_v4_shape((#[trigger] links@[k]).id@),
                forall|j: int| 0 <= j < i ==> uuid_v4_shape((#[trigger] links@[2 * j]).dst_id@),
            decreases ingredients@.len() - i,
        {
            let now = times[i].clone();
            let item_id = fresh_id_avoiding(&items);
            items.push(item_id.clone());
            let mut metadata = String::from_str("{\"label\":\"");
            let label = escape_json(ingredients[i].as_str());
            metadata.append(label.as_str());
            metadata.append("\"}");
            let to_item = Link {
                id: new_id(),
                src_kind: String::from_str("fact"),
                src_id: String::from_str(fact_id),
                dst_kind: String::from_str("shopping_item"),
                dst_id: item_id.clone(),
                rel_type: String::from_str("derives_to"),
                derived_by: String::from_str(self.name()),
                metadata: Some(metadata),
                created_at: now.clone(),
            };
            let to_page = Link {
                id: new_id(),
                src_kind: String::from_str("shopping_item"),
                src_id: item_id,
                dst_kind: String::from_str("page"),
                dst_id: String::from_str(page_id),
                rel_type: String::from_str("belongs_to"),
                derived_by: String::from_str(self.name()),
                metadata: None,
                created_at: now,
            };
            let ghost before = links@;
            let ghost items_before = items@.drop_last();
            links.push(to_item);
            links.push(to_page);
            assert forall|j: int| 0 <= j < i + 1 implies ingredient_links(
                #[trigger] links@[2 * j],
                links@[2 * j + 1],
                fact_id@,
                ingredients@[j]@,
                page_id@,
            ) by {
                if j < i {
                    assert(links@[2 * j] == before[2 * j]);
                    assert(links@[2 * j + 1] == before[2 * j + 1]);
                }
            }
            assert forall|j: int| 0 <= j < i + 1 implies #[trigger] items@[j]@ == links@[2
                * j].dst_id@ by {
                if j < i {
                    assert(links@[2 * j] == before[2 * j]);
                }
            }
            assert(distinct_items(links@, (i + 1) as nat)) by {
                assert forall|a: int, b: int|
                    0 <= a < i + 1 && 0 <= b < i + 1 && a != b implies #[trigger] links@[2
                    * a].dst_id@ != #[trigger] links@[2 * b].dst_id@ by {
                    if a < i && b < i {
                        assert(links@[2 * a] == before[2 * a]);
                        assert(links@[2 * b] == before[2 * b]);
                    } else if a == i {
                        assert(items@[b] == items_before[b]);
                        assert(items_before[b]@ == links@[2 * b].dst_id@);
                    } else {
                        assert(items@[a] == items_before[a]);
                        assert(items_before[a]@ == links@[2 * a].dst_id@);
                    }
                }
            }
            assert forall|j: int| 0 <= j < i + 1 implies (#[trigger] links@[2 * j]).created_at
                == times@[j] by {
                if j < i {
                    assert(links@[2 * j] == before[2 * j]);
                }
            }
            assert forall|k: int| 0 <= k < links@.len() implies uuid_v4_shape(
                (#[trigger] links@[k]).id@,
            ) by {
                if k < before.len() {
                    assert(links@[k] == before[k]);
                }
            }
            assert forall|j: int| 0 <= j < i + 1 implies uuid_v4_shape(
                (#[trigger] links@[2 * j]).dst_id@,
            ) by {
                if j < i {
                    assert(links@[2 * j] == before[2 * j]);
                }
            }
            i = i + 1;
        }
        links
    }

    /// Plans a run of the rule over the recipe facts: each recipe that is
    /// validated and not derived yet (its id not in `derived`) gets, in
    /// order, the links of [`Self::links_for_recipe`]. Fails only when the
    /// clock cannot be read, which happens only for a recipe with
    /// ingredients.
    pub fn plan_derivation(
        &self,
        recipes: &Vec<RecipeInput>,
        derived: &Vec<String>,
        page_id: &str,
    ) -> (r: Result<Vec<Vec<Link>>, DerivationError>)
        requires
            forall|i: int| 0 <= i < recipes@.len() ==> (#[trigger] recipes@[i]).ingredients@.len() * 2
                <= usize::MAX,
        ensures
            r is Err ==> r matches Err(DerivationError::Time(_)),
            (forall|j: int|
                0 <= j < pending_recipes(recipes@, derived@).len() ==> (
                #[trigger] pending_recipes(recipes@, derived@)[j]).ingredients@.len() == 0) ==> r is Ok,
            r matches Ok(plan) ==> plan_of(plan@, recipes@, derived@, page_id@),
    {
        let ghost p = |r: RecipeInput| recipe_pending(r, derived@);
        let mut times: Vec<Vec<String>> = Vec::new();
        let mut i: usize = 0;
        while i < recipes.len()
            invariant
                i <= recipes@.len(),
                p == (|r: RecipeInput| recipe_pending(r, derived@)),
                times_fit(times@, pending_recipes(recipes@.take(i as int), derived@)),
                forall|j: int, k: int|
                    0 <= j < times@.len() && 0 <= k < times@[j]@.len() ==> rfc3339_utc_shape(
                        #[trigger] times@[j]@[k]@,
                    ),
            decreases recipes@.len() - i,
        {
            let ghost before = times@;
            let ghost prefix = recipes@.take(i as int);
            assert(recipes@.take(i + 1).drop_last() =~= prefix);
            assert(recipes@.take(i + 1).last() == recipes@[i as int]);
            let r = &recipes[i];
            if r.validated && !is_listed(derived, r.fact_id.as_str()) {
                assert(p(recipes@[i as int]));
                let t = match read_times(r.ingredients.len()) {
                    Ok(t) => t,
                    Err(e) => {
                        proof {
                            lemma_kept_complete(recipes@, p, recipes@[i as int]);
                            let pend = pending_recipes(recipes@, derived@);
                            let j = choose|j: int|
                                0 <= j < pend.len() && pend[j] == recipes@[i as int];
                            assert(pend[j].ingredients@.len() > 0);
                        }
                        return Err(e);
                    },
                };
                times.push(t);
                proof {
                    let pend = pending_recipes(recipes@.take(i + 1), derived@);
                    assert(pend == pending_recipes(prefix, derived@).push(recipes@[i as int]));
                    assert forall|j: int| 0 <= j < times@.len() implies (#[trigger] times@[j])@.len()
                        == pend[j].ingredients@.len() by {
                        if j < before.len() {
                            assert(times@[j] == before[j]);
                        }
                    }
                    assert forall|j: int, k: int|
                        0 <= j < times@.len() && 0 <= k < times@[j]@.len() implies rfc3339_utc_shape(
                        #[trigger] times@[j]@[k]@,
                    ) by {
                        if j < before.len() {
                            assert(times@[j] == before[j]);
                        }
                    }
                }
            } else {
                assert(!p(recipes@[i as int]));
                assert(pending_recipes(recipes@.take(i + 1), derived@) == pending_recipes(
                    prefix,
                    derived@,
                ));
            }
            i = i + 1;
        }
        assert(recipes@.take(recipes@.len() as int) =~= recipes@);
        let plan = self.plan_derivation_at(recipes, derived, page_id, &times);
        proof {
            let pend = pending_recipes(recipes@, derived@);
            assert forall|j: int| 0 <= j < plan@.len() implies recipe_links(
                #[trigger] plan@[j]@,
                pend[j].fact_id@,
                pend[j].ingredients@,
                page_id@,
            ) by {
                assert(recipe_links_at(
                    plan@[j]@,
                    pend[j].fact_id@,
                    pend[j].ingredients@,
                    page_id@,
                    times@[j]@,
                ));
                assert(times@[j]@.len() == pend[j].ingredients@.len());
                assert forall|k: int| 0 <= k < times@[j]@.len() implies rfc3339_utc_shape(
                    #[trigger] times@[j]@[k]@,
                ) by {}
                lemma_links_at_are_fresh(
                    plan@[j]@,
                    pend[j].fact_id@,
                    pend[j].ingredients@,
                    page_id@,
                    times@[j]@,
                );
            }
        }
        Ok(plan)
    }

    /// The plan of a run made at the given times: `times[j]` holds one time
    /// per ingredient of the `j`-th recipe taken (see
    /// [`Self::plan_derivation`], which reads them).
    pub fn plan_derivation_at(
        &self,
        recipes: &Vec<RecipeInput>,
        derived: &Vec<String>,
        page_id: &str,
        times: &Vec<Vec<String>>,
    ) -> (plan: Vec<Vec<Link>>)
        requires
            forall|i: int| 0 <= i < recipes@.len() ==> (#[trigger] recipes@[i]).ingredients@.len() * 2
                <= usize::MAX,
            times_fit(times@, pending_recipes(recipes@, derived@)),
        ensures
            plan_at(plan@, recipes@, derived@, page_id@, times@),
    {
        let ghost p = |r: RecipeInput| recipe_pending(r, derived@);
        let mut plan: Vec<Vec<Link>> = Vec::new();
        let mut i: usize = 0;
        while i < recipes.len()
            invariant
                i <= recipes@.len(),
                p == (|r: RecipeInput| recipe_pending(r, derived@)),
                forall|k: int| 0 <= k < recipes@.len() ==> (#[trigger] recipes@[k]).ingredients@.len()
                    * 2 <= usize::MAX,
                times_fit(times@, pending_recipes(recipes@, derived@)),
                plan_at(plan@, recipes@.take(i as int), derived@, page_id@, times@),
            decreases recipes@.len() - i,
        {
            let ghost before = plan@;
            let ghost prefix = recipes@.take(i as int);
            assert(recipes@.take(i + 1).drop_last() =~= prefix);
            assert(recipes@.take(i + 1).last() == recipes@[i as int]);
            let r = &recipes[i];
            if r.validated && !is_listed(derived, r.fact_id.as_str()) {
                assert(p(recipes@[i as int]));
                let ghost pend = pending_recipes(recipes@.take(i + 1), derived@);
                proof {
                    assert(pend == pending_recipes(prefix, derived@).push(recipes@[i as int]));
                    lemma_kept_prefix(recipes@, p, i + 1);
                    assert(pend[plan@.len() as int] == pending_recipes(recipes@, derived@)[plan@.len() as int]);
                }
                let links = self.links_for_recipe_at(
                    r.fact_id.as_str(),
                    &r.ingredients,
                    page_id,
                    &times[plan.len()],
                );
                plan.push(links);
                proof {
                    assert forall|j: int| 0 <= j < plan@.len() implies recipe_links_at(
                        #[trigger] plan@[j]@,
                        pend[j].fact_id@,
                        pend[j].ingredients@,
                        page_id@,
                        times@[j]@,
                    ) by {
                        if j < before.len() {
                            assert(plan@[j] == before[j]);
                        }
                    }
                }
            } else {
                assert(!p(recipes@[i as int]));
                assert(pending_recipes(recipes@.take(i + 1), derived@) == pending_recipes(
                    prefix,
                    derived@,
                ));
            }
            i = i + 1;
        }
        assert(recipes@.take(recipes@.len() as int) =~= recipes@);
        plan
    }
}

} // verus!
