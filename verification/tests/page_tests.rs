use podcast_recos::episode::{Episode, PLACEHOLDER_IMAGE};
use podcast_recos::html::{attribute_text, escape_html};
use podcast_recos::page::{
    classify_media, episode_card, episode_cards, episode_options, media_kind,
    recommendation_card, recommendation_cards, EpisodeCard, EpisodeOption, MediaKind,
    RecommendationCard, UNTITLED,
};
use podcast_recos::recommendation::Recommendation;
use podcast_recos::store::RecommendationStore;

fn episode(title: &str, image_url: &str) -> Episode {
    Episode {
        title: title.to_string(),
        date: "Mon, 01 Jan 2024".to_string(),
        description: "<![CDATA[<p>Texte</p>]]>".to_string(),
        image_url: image_url.to_string(),
    }
}

fn reco(titre: &str, lien: Option<&str>, type_media: &str) -> Recommendation {
    Recommendation {
        chroniqueurs: vec!["Alice".to_string(), "Bob & Co".to_string()],
        titre: titre.to_string(),
        lien: lien.map(|l| l.to_string()),
        type_media: type_media.to_string(),
        description: "<b>bien</b>".to_string(),
    }
}

#[test]
fn escape_html_agrees_with_htmlescape() {
    let mut all_ascii = String::new();
    for b in 0u8..128 {
        all_ascii.push(b as char);
    }
    for s in [
        "",
        "plain",
        "<em>Hej!</em>",
        "\"quoted\" & 'single'",
        "&&&",
        "a<b>c",
        "é < ü > \u{1F600} &",
        "&amp;",
        all_ascii.as_str(),
    ] {
        assert_eq!(escape_html(s), htmlescape::encode_minimal(s), "{:?}", s);
    }
}

#[test]
fn escape_html_writes_five_entities() {
    assert_eq!(escape_html("\"&'<>"), "&quot;&amp;&#x27;&lt;&gt;");
    assert_eq!(escape_html("x"), "x");
}

#[test]
fn media_kind_counts_without_regard_to_case() {
    assert_eq!(media_kind("film"), MediaKind::Film);
    assert_eq!(media_kind("FILM"), MediaKind::Film);
    assert_eq!(media_kind("Livre"), MediaKind::Livre);
    assert_eq!(media_kind("Chaine YouTube"), MediaKind::Chaine);
    assert_eq!(media_kind("chaine twitch"), MediaKind::Chaine);
    assert_eq!(media_kind("Compte Instagram"), MediaKind::Compte);
    assert_eq!(media_kind("compte tiktok"), MediaKind::Compte);
    assert_eq!(media_kind("MUSIQUE"), MediaKind::Musique);
    assert_eq!(media_kind("SÉRIE"), MediaKind::Serie);
    assert_eq!(media_kind("Jeu"), MediaKind::Jeu);
    assert_eq!(media_kind("chaine"), MediaKind::Autre);
    assert_eq!(media_kind("compte"), MediaKind::Autre);
    assert_eq!(media_kind("serie"), MediaKind::Autre);
    assert_eq!(media_kind(" film"), MediaKind::Autre);
    assert_eq!(media_kind(""), MediaKind::Autre);
}

#[test]
fn classify_media_takes_the_tag_in_lower_case() {
    assert_eq!(classify_media("film"), MediaKind::Film);
    assert_eq!(classify_media("Film"), MediaKind::Autre);
    assert_eq!(classify_media("série"), MediaKind::Serie);
    assert_eq!(classify_media("autre"), MediaKind::Autre);
}

#[test]
fn kinds_have_their_label_and_colour() {
    let expected = [
        (MediaKind::Film, "Film", "#ffb347"),
        (MediaKind::Livre, "Livre", "#a3d977"),
        (MediaKind::Chaine, "Chaîne", "#ff5e5e"),
        (MediaKind::Compte, "Compte", "#e1306c"),
        (MediaKind::Musique, "Musique", "#1db954"),
        (MediaKind::Serie, "Série", "#4a90e2"),
        (MediaKind::Jeu, "Jeu", "#f6c3ff"),
        (MediaKind::Autre, "Autre", "#b88a2a"),
    ];
    for (kind, label, color) in expected {
        assert_eq!(kind.label(), label);
        assert_eq!(kind.color(), color);
    }
}

#[test]
fn recommendation_card_makes_every_text_safe() {
    let card = recommendation_card(3, &reco("Le \"film\"", Some("https://x.example/?a=1&b=2"), "Film"));
    assert_eq!(
        card,
        RecommendationCard {
            index: 3,
            contributors: "Alice, Bob &amp; Co".to_string(),
            title: "Le &quot;film&quot;".to_string(),
            link: Some("https://x.example/?a=1&amp;b=2".to_string()),
            kind: MediaKind::Film,
            description: "&lt;b&gt;bien&lt;/b&gt;".to_string(),
        }
    );
}

#[test]
fn recommendation_card_shows_no_blank_link() {
    assert_eq!(recommendation_card(0, &reco("t", None, "x")).link, None);
    assert_eq!(recommendation_card(0, &reco("t", Some(""), "x")).link, None);
    assert_eq!(recommendation_card(0, &reco("t", Some(" \t"), "x")).link, None);
    assert_eq!(recommendation_card(0, &reco("t", Some(" u "), "x")).link, Some(" u ".to_string()));
}

#[test]
fn recommendation_cards_carry_their_positions() {
    let list = vec![reco("a", None, "film"), reco("b", None, "jeu"), reco("c", None, "?")];
    let cards = recommendation_cards(&list);
    assert_eq!(cards.len(), 3);
    for (i, card) in cards.iter().enumerate() {
        assert_eq!(card.index, i);
        assert_eq!(card.title, list[i].titre);
    }
    assert_eq!(cards[1].kind, MediaKind::Jeu);
    assert_eq!(cards[2].kind, MediaKind::Autre);
    assert!(recommendation_cards(&Vec::new()).is_empty());
}

#[test]
fn episode_card_joins_the_episode_with_its_recommendations() {
    let mut store = RecommendationStore::new();
    store.add_recommendation("L'épisode <1>", reco("a", None, "film"));
    store.add_recommendation("L'épisode <1>", reco("b", None, "livre"));
    store.add_recommendation("autre", reco("c", None, "jeu"));
    let card = episode_card(&episode("<![CDATA[ L'épisode <1> ]]>", "https://img.example/1.jpg"), &store);
    assert_eq!(
        card,
        EpisodeCard {
            key: "L'épisode <1>".to_string(),
            title: "L&#x27;épisode &lt;1&gt;".to_string(),
            anchor: "L&#x27;épisode &lt;1&gt;".to_string(),
            date: "Mon, 01 Jan 2024".to_string(),
            description: "<p>Texte</p>".to_string(),
            image_url: Some("https://img.example/1.jpg".to_string()),
            recommendations: recommendation_cards(&vec![reco("a", None, "film"), reco("b", None, "livre")]),
        }
    );
}

#[test]
fn episode_card_hides_the_placeholder_and_names_the_untitled() {
    let store = RecommendationStore::new();
    let card = episode_card(&episode("<![CDATA[]]>", PLACEHOLDER_IMAGE), &store);
    assert_eq!(card.key, "");
    assert_eq!(card.title, UNTITLED);
    assert_eq!(card.title, "Épisode sans titre");
    assert_eq!(card.anchor, "");
    assert_eq!(card.image_url, None);
    assert!(card.recommendations.is_empty());
}

#[test]
fn episode_cards_leave_out_blank_titles() {
    let mut store = RecommendationStore::new();
    store.add_recommendation("B", reco("b", None, "film"));
    let episodes = vec![
        episode("A", "u"),
        episode("   ", "u"),
        episode("", "u"),
        episode("<![CDATA[ B ]]>", "u"),
        episode("<![CDATA[]]>", "u"),
    ];
    let cards = episode_cards(&episodes, &store);
    let keys: Vec<&str> = cards.iter().map(|c| c.key.as_str()).collect();
    assert_eq!(keys, vec!["A", "B", ""]);
    assert!(cards[0].recommendations.is_empty());
    assert_eq!(cards[1].recommendations.len(), 1);
    assert!(episode_cards(&Vec::new(), &store).is_empty());
}

#[test]
fn recommendations_under_a_raw_title_are_not_found() {
    let mut store = RecommendationStore::new();
    store.add_recommendation("<![CDATA[ B ]]>", reco("b", None, "film"));
    let card = episode_card(&episode("<![CDATA[ B ]]>", "u"), &store);
    assert!(card.recommendations.is_empty());
}

#[test]
fn attribute_text_writes_quotes_as_entities() {
    assert_eq!(attribute_text("a\"b'c"), "a&quot;b&#39;c");
    assert_eq!(attribute_text("plain &amp; safe"), "plain &amp; safe");
    assert_eq!(attribute_text(""), "");
    for s in ["x'y", "\"\"", "L&#x27;été", "a<b"] {
        let safe = htmlescape::encode_minimal(s);
        assert_eq!(attribute_text(&safe), safe.replace("\"", "&quot;").replace("'", "&#39;"));
    }
}

#[test]
fn episode_options_submit_the_key_of_the_card() {
    let episodes = vec![
        episode("<![CDATA[ L'épisode \"1\" ]]>", "u"),
        episode("   ", "u"),
        episode("Deux & trois", "u"),
    ];
    let options = episode_options(&episodes);
    assert_eq!(
        options,
        vec![
            EpisodeOption {
                value: "L&#x27;épisode &quot;1&quot;".to_string(),
                label: "L&#x27;épisode &quot;1&quot;".to_string(),
            },
            EpisodeOption { value: "".to_string(), label: "".to_string() },
            EpisodeOption { value: "Deux &amp; trois".to_string(), label: "Deux &amp; trois".to_string() },
        ]
    );
    let store = RecommendationStore::new();
    let cards = episode_cards(&episodes, &store);
    assert_eq!(cards[0].anchor, options[0].value);
    assert_eq!(cards[1].anchor, options[2].value);
}

#[test]
fn what_is_added_under_the_key_of_an_episode_is_shown_on_its_card() {
    let e = episode("<![CDATA[ Episode 7 ]]>", "u");
    let mut store = RecommendationStore::new();
    let key = episode_card(&e, &store).key;
    store.add_recommendation(&key, reco("first", None, "film"));
    let (rec, index) = store.add(&key, "Zoé", "second".to_string(), None, "jeu".to_string(), "d".to_string());
    let card = episode_card(&e, &store);
    assert_eq!(card.recommendations.len(), 2);
    assert_eq!(card.recommendations[index], recommendation_card(index, &rec));
}

#[test]
fn escape_html_agrees_with_htmlescape_on_many_texts() {
    let alphabet = ['a', '"', '&', '\'', '<', '>', ' ', 'é', ';', '#'];
    let mut state: u64 = 99;
    for _ in 0..2000 {
        state = state.wrapping_mul(6364136223846793005).wrapping_add(1442695040888963407);
        let len = (state >> 33) % 10;
        let mut text = String::new();
        for _ in 0..len {
            state = state.wrapping_mul(6364136223846793005).wrapping_add(1442695040888963407);
            text.push(alphabet[((state >> 33) % alphabet.len() as u64) as usize]);
        }
        let safe = escape_html(&text);
        assert_eq!(safe, htmlescape::encode_minimal(&text), "{:?}", text);
        assert_eq!(attribute_text(&safe), safe);
    }
}
