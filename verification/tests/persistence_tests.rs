use podcast_recos::recommendation::Recommendation;
use podcast_recos::store::{EpisodeEntry, RecommendationStore};
use serde_json::Value;

fn record(rec: &Recommendation) -> Value {
    let mut fields = serde_json::Map::new();
    fields.insert(
        "chroniqueurs".to_string(),
        Value::Array(rec.chroniqueurs.iter().map(|c| Value::String(c.clone())).collect()),
    );
    fields.insert("titre".to_string(), Value::String(rec.titre.clone()));
    fields.insert(
        "lien".to_string(),
        match &rec.lien {
            Some(l) => Value::String(l.clone()),
            None => Value::Null,
        },
    );
    fields.insert("type_media".to_string(), Value::String(rec.type_media.clone()));
    fields.insert("description".to_string(), Value::String(rec.description.clone()));
    Value::Object(fields)
}

fn document(store: &RecommendationStore) -> String {
    let mut keys = serde_json::Map::new();
    for entry in store.entries() {
        keys.insert(entry.key, Value::Array(entry.recommendations.iter().map(record).collect()));
    }
    serde_json::to_string_pretty(&Value::Object(keys)).unwrap()
}

fn recommendation(value: &Value) -> Option<Recommendation> {
    let fields = value.as_object()?;
    let mut chroniqueurs = Vec::new();
    for c in fields.get("chroniqueurs")?.as_array()? {
        chroniqueurs.push(c.as_str()?.to_string());
    }
    let lien = match fields.get("lien") {
        None | Some(Value::Null) => None,
        Some(l) => Some(l.as_str()?.to_string()),
    };
    Some(Recommendation {
        chroniqueurs,
        titre: fields.get("titre")?.as_str()?.to_string(),
        lien,
        type_media: fields.get("type_media")?.as_str()?.to_string(),
        description: fields.get("description")?.as_str()?.to_string(),
    })
}

fn entries(text: &str) -> Option<Vec<EpisodeEntry>> {
    let value: Value = serde_json::from_str(text).ok()?;
    let mut all = Vec::new();
    for (key, list) in value.as_object()? {
        let mut recommendations = Vec::new();
        for item in list.as_array()? {
            recommendations.push(recommendation(item)?);
        }
        all.push(EpisodeEntry { key: key.clone(), recommendations });
    }
    Some(all)
}

fn sample_store() -> RecommendationStore {
    let mut store = RecommendationStore::new();
    store.add("Zeta", "Alice, Bob", "Film".to_string(), None, "film".to_string(), "d\n\"q\"".to_string());
    store.add(
        "Alpha é",
        "Carol",
        "Livre".to_string(),
        Some("https://example.org/?a=1&b=2".to_string()),
        "livre".to_string(),
        "".to_string(),
    );
    store.add("Zeta", "", "Jeu".to_string(), Some("".to_string()), "jeu".to_string(), "x".to_string());
    store.add("Vide", "x", "t".to_string(), None, "m".to_string(), "d".to_string());
    store.delete_recommendation("Vide", 0);
    store
}

#[test]
fn store_survives_the_way_through_json_text() {
    let store = sample_store();
    let text = document(&store);
    let restored = RecommendationStore::restore(entries(&text));
    assert!(restored.same_as(&store));
    assert_eq!(restored.len(), store.len());
    for entry in store.entries() {
        assert_eq!(restored.get(&entry.key), Some(&entry.recommendations));
    }
}

#[test]
fn document_has_the_known_shape() {
    let mut store = RecommendationStore::new();
    store.add("Episode 1", "Alice, Bob", "Some Film".to_string(), None, "film".to_string(), "Great movie".to_string());
    let value: Value = serde_json::from_str(&document(&store)).unwrap();
    let list = value.get("Episode 1").unwrap().as_array().unwrap();
    assert_eq!(list.len(), 1);
    assert_eq!(list[0].get("chroniqueurs").unwrap().as_array().unwrap().len(), 2);
    assert_eq!(list[0].get("titre").unwrap().as_str(), Some("Some Film"));
    assert!(list[0].get("lien").unwrap().is_null());
}

#[test]
fn text_that_is_no_json_gives_the_empty_store() {
    for text in ["", "{", "not json", "{\"a\": [", "[1, 2", "{\"a\": [{\"titre\": 3}]}", "[]", "3"] {
        assert!(RecommendationStore::restore(entries(text)).is_empty(), "{:?}", text);
    }
}

#[test]
fn empty_document_gives_the_empty_store() {
    assert!(RecommendationStore::restore(entries("{}")).is_empty());
    assert_eq!(document(&RecommendationStore::new()), "{}");
}
