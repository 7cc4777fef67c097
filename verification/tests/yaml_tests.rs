use cookbook::home::{FormRecipe, StoredRecipe};
use cookbook::store::RecipeStore;
use serde_yaml::{Mapping, Value};

fn text(value: &str) -> Value {
    Value::String(value.to_string())
}

fn to_yaml(records: &[StoredRecipe]) -> String {
    let mut sequence = Vec::new();
    for record in records {
        let mut mapping = Mapping::new();
        mapping.insert(text("name"), text(&record.name));
        let ingredients = record.ingredients.iter().map(|item| text(item)).collect();
        mapping.insert(text("ingredients"), Value::Sequence(ingredients));
        mapping.insert(text("recipe"), text(&record.recipe));
        sequence.push(Value::Mapping(mapping));
    }
    serde_yaml::to_string(&Value::Sequence(sequence)).unwrap()
}

fn from_yaml(yaml: &str) -> Vec<StoredRecipe> {
    let value: Value = serde_yaml::from_str(yaml).unwrap();
    let mut records = Vec::new();
    for entry in value.as_sequence().unwrap() {
        let name = entry["name"].as_str().unwrap().to_string();
        let ingredients = entry["ingredients"]
            .as_sequence()
            .unwrap()
            .iter()
            .map(|item| item.as_str().unwrap().to_string())
            .collect();
        let recipe = entry["recipe"].as_str().unwrap().to_string();
        records.push(StoredRecipe::new(name, ingredients, recipe));
    }
    records
}

fn parts(store: &RecipeStore) -> Vec<(String, Vec<String>, String, String)> {
    store
        .list()
        .iter()
        .map(|recipe| {
            (
                recipe.name().clone(),
                recipe.ingredients().clone(),
                recipe.recipe().clone(),
                recipe.anchor().clone(),
            )
        })
        .collect()
}

#[test]
fn book_written_as_yaml_and_read_again_is_the_same_book() {
    let mut store = RecipeStore::new();
    store.append(FormRecipe::new(
        "Roast leg of lamb".to_string(),
        "lamb\ngarlic\nrosemary".to_string(),
        "Rub with garlic.\nRoast for two hours.".to_string(),
    ));
    store.append(FormRecipe::new("Soup".to_string(), "water".to_string(), "Boil: ten minutes".to_string()));
    store.append(FormRecipe::new("crème brûlée".to_string(), "cream\neggs\n".to_string(), String::new()));
    let yaml = to_yaml(&store.stored());
    let again = RecipeStore::load(from_yaml(&yaml));
    assert_eq!(parts(&again), parts(&store));
    assert_eq!(to_yaml(&again.stored()), yaml);
}

#[test]
fn book_read_from_yaml_has_the_recipes_in_the_order_of_the_file() {
    let yaml = "- name: Pan cake\n  ingredients:\n  - eggs\n  - flour\n  recipe: Mix and fry.\n- name: Soup\n  ingredients: []\n  recipe: Boil.\n";
    let store = RecipeStore::load(from_yaml(yaml));
    assert_eq!(
        parts(&store),
        vec![
            (
                "Pan cake".to_string(),
                vec!["eggs".to_string(), "flour".to_string()],
                "Mix and fry.".to_string(),
                "Pan-cake".to_string()
            ),
            ("Soup".to_string(), Vec::new(), "Boil.".to_string(), "Soup".to_string()),
        ]
    );
}
