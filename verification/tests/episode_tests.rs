use podcast_recos::episode::{episode_key, shown_description, Episode, PLACEHOLDER_IMAGE};

#[test]
fn episode_key_strips_cdata_markers_and_trims() {
    assert_eq!(episode_key("<![CDATA[ Episode 1 ]]>"), "Episode 1");
    assert_eq!(episode_key("  Episode 2\n"), "Episode 2");
    assert_eq!(episode_key("<![CDATA[A]]> & <![CDATA[B]]>"), "A & B");
    assert_eq!(episode_key("<![CDATA[]]>"), "");
    assert_eq!(episode_key(""), "");
    assert_eq!(episode_key("Épisode 3 : l'été"), "Épisode 3 : l'été");
}

#[test]
fn episode_key_agrees_with_std() {
    for t in [
        "<![CDATA[ x ]]>",
        "no markers",
        " <![CDATA[<![CDATA[y]]>]]> ",
        "<![CD<![CDATA[ATA[z",
        "]]]>>",
        "]]<![CDATA[>",
        "\u{00A0}t\u{2003}",
    ] {
        let expected = t.replace("<![CDATA[", "").replace("]]>", "").trim().to_string();
        assert_eq!(episode_key(t), expected, "{:?}", t);
    }
}

#[test]
fn episode_key_is_the_same_for_a_title_and_its_cdata_form() {
    assert_eq!(episode_key("<![CDATA[Le grand débat]]>"), episode_key("Le grand débat"));
    assert_eq!(episode_key(" Le grand débat "), episode_key("Le grand débat"));
}

#[test]
fn episode_key_keeps_case_and_inner_space() {
    assert_ne!(episode_key("Episode 1"), episode_key("episode 1"));
    assert_eq!(episode_key("a  b"), "a  b");
}

#[test]
fn shown_description_decodes_and_cuts_the_hosting_notice() {
    assert_eq!(
        shown_description("<![CDATA[<p>Bonjour&nbsp;&amp; bienvenue</p> Hébergé par Acast. Visitez]]>"),
        "<p>Bonjour & bienvenue</p>"
    );
    assert_eq!(shown_description("  &lt;b&gt;x&lt;/b&gt; &quot;y&quot; "), "<b>x</b> \"y\"");
    assert_eq!(shown_description("Hébergé par Acast"), "");
    assert_eq!(shown_description(""), "");
    assert_eq!(shown_description("&amp;lt;"), "<");
}

#[test]
fn shown_description_agrees_with_std() {
    for d in [
        "<![CDATA[<p>Texte</p><br /><hr><p style='color:grey'>Hébergé par Acast. </p>]]>",
        "plain &amp;amp; text",
        "é Hébergé par Acast Hébergé par Acast",
        "  spaced   Hébergé par Acast",
        "&nbsp;&nbsp;",
        "&gt;&lt;&quot;&amp;&nbsp;",
    ] {
        let mut expected = d
            .replace("<![CDATA[", "")
            .replace("]]>", "")
            .replace("&nbsp;", " ")
            .replace("&amp;", "&")
            .replace("&quot;", "\"")
            .replace("&lt;", "<")
            .replace("&gt;", ">")
            .trim()
            .to_string();
        if let Some(at) = expected.find("Hébergé par Acast") {
            expected.truncate(at);
            expected = expected.trim_end().to_string();
        }
        assert_eq!(shown_description(d), expected, "{:?}", d);
    }
}

#[test]
fn placeholder_is_the_known_address() {
    assert_eq!(PLACEHOLDER_IMAGE, "https://via.placeholder.com/350x200?text=No+Image");
}

#[test]
fn clone_of_an_episode_is_equal() {
    let e = Episode {
        title: "t".to_string(),
        date: "d".to_string(),
        description: "x".to_string(),
        image_url: "u".to_string(),
    };
    assert_eq!(e.clone(), e);
}
