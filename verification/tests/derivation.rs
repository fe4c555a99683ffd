use az::derivation::{escape_json, require_active_page, DerivationError, RecipeInput, RecipeToShopping};
use az::l3::Page;

fn page(id: &str) -> Page {
    Page {
        id: id.into(),
        title: "Courses".into(),
        description: None,
        is_active: true,
        created_at: "2026-05-26T10:00:00Z".into(),
        archived_at: None,
    }
}

#[test]
fn no_active_page_errors() {
    let err = require_active_page(None).unwrap_err();
    assert!(matches!(err, DerivationError::NoActivePage));
    assert_eq!(require_active_page(Some(page("p1"))).unwrap(), page("p1"));
}

#[test]
fn recipe_to_shopping_creates_items() {
    let ingredients = vec!["œufs".to_string(), "farine".to_string(), "lait".to_string()];
    let links = RecipeToShopping.links_for_recipe("r1", &ingredients, "p1").unwrap();
    // 3 ingrédients × 2 liens (recipe→item + item→page) = 6 liens
    assert_eq!(links.len(), 6);
    let outgoing: Vec<_> = links.iter().filter(|l| l.src_kind == "fact" && l.src_id == "r1").collect();
    assert_eq!(outgoing.len(), 3);
    assert!(outgoing.iter().all(|l| l.dst_kind == "shopping_item"));
    let incoming: Vec<_> = links.iter().filter(|l| l.dst_kind == "page" && l.dst_id == "p1").collect();
    assert_eq!(incoming.len(), 3);
}

#[test]
fn recipe_links_are_paired_and_labelled() {
    let ingredients = vec!["sel \"fin\"".to_string()];
    let links = RecipeToShopping.links_for_recipe("r", &ingredients, "p").unwrap();
    assert_eq!(links[0].rel_type, "derives_to");
    assert_eq!(links[0].derived_by, "rule:recipe-to-shopping");
    assert_eq!(links[0].metadata.as_deref(), Some("{\"label\":\"sel \\\"fin\\\"\"}"));
    assert_eq!(links[1].src_kind, "shopping_item");
    assert_eq!(links[1].src_id, links[0].dst_id);
    assert_eq!(links[1].rel_type, "belongs_to");
    assert!(links[1].metadata.is_none());
    assert_eq!(links[0].created_at, links[1].created_at);
    assert_ne!(links[0].id, links[1].id);
}

#[test]
fn recipe_without_ingredients_yields_nothing() {
    let links = RecipeToShopping.links_for_recipe("r", &Vec::new(), "p").unwrap();
    assert!(links.is_empty());
    assert_eq!(RecipeToShopping.name(), "rule:recipe-to-shopping");
}

#[test]
fn escape_json_escapes_backslash_then_quote() {
    assert_eq!(escape_json("a\\b\"c"), "a\\\\b\\\"c");
    assert_eq!(escape_json("plain"), "plain");
    assert_eq!(escape_json(""), "");
}

fn recipe(id: &str, validated: bool, ingredients: &[&str]) -> RecipeInput {
    RecipeInput {
        fact_id: id.into(),
        validated,
        ingredients: ingredients.iter().map(|s| s.to_string()).collect(),
    }
}

#[test]
fn recipe_to_shopping_is_idempotent() {
    let recipes = vec![recipe("r1", true, &["œufs"])];
    let first = RecipeToShopping.plan_derivation(&recipes, &vec![], "p1").unwrap();
    let n1: usize = first.iter().map(|l| l.len()).sum();
    assert_eq!(n1, 2);
    // The links of the first run mark r1 as derived.
    let derived: Vec<String> = first
        .iter()
        .flatten()
        .filter(|l| l.src_kind == "fact" && l.rel_type == "derives_to")
        .map(|l| l.src_id.clone())
        .collect();
    let second = RecipeToShopping.plan_derivation(&recipes, &derived, "p1").unwrap();
    let n2: usize = second.iter().map(|l| l.len()).sum();
    assert_eq!(n2, 0);
}

#[test]
fn only_validated_underived_recipes_are_planned() {
    let recipes = vec![
        recipe("r1", true, &["œufs", "lait"]),
        recipe("r2", false, &["sel"]),
        recipe("r3", true, &[]),
        recipe("r4", true, &["farine"]),
    ];
    let plan = RecipeToShopping
        .plan_derivation(&recipes, &vec!["r4".to_string()], "p")
        .unwrap();
    assert_eq!(plan.len(), 2);
    assert_eq!(plan[0].len(), 4);
    assert_eq!(plan[0][0].src_id, "r1");
    assert_eq!(plan[0][1].dst_id, "p");
    assert!(plan[1].is_empty());
    assert!(RecipeToShopping.plan_derivation(&vec![], &vec![], "p").unwrap().is_empty());
}

#[test]
fn links_at_given_times_use_one_time_per_ingredient() {
    let ingredients = vec!["a".to_string(), "b".to_string()];
    let times = vec!["T1".to_string(), "T2".to_string()];
    let links = RecipeToShopping.links_for_recipe_at("r", &ingredients, "p", &times);
    assert_eq!(links.len(), 4);
    assert_eq!(links[0].created_at, "T1");
    assert_eq!(links[1].created_at, "T1");
    assert_eq!(links[2].created_at, "T2");
    assert_eq!(links[3].created_at, "T2");
    let recipes = vec![recipe("r1", true, &["x"]), recipe("r2", false, &["y"])];
    let plan = RecipeToShopping.plan_derivation_at(&recipes, &vec![], "p", &vec![vec!["T9".to_string()]]);
    assert_eq!(plan.len(), 1);
    assert_eq!(plan[0][0].created_at, "T9");
    assert_eq!(plan[0][0].src_id, "r1");
}
