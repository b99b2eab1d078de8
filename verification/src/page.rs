//! What the page shows: for each episode a card with its recommendations, and for the
//! form by which a recommendation is added one option for each episode.

use vstd::prelude::*;
use crate::episode::{
    episode_key, episode_key_of, shown_description, shown_description_of, Episode, EpisodeView,
};
use crate::html::{attribute_text, attribute_text_of, escape_html, escaped};
use crate::recommendation::{Recommendation, RecommendationView};
use crate::store::{recommendations_of, RecommendationStore, StoreView};
use crate::text::{contains, first_occurrence, join, joined, same_text, trim, trimmed};

verus! {

/// The title shown for an episode whose key is empty.
pub const UNTITLED: &'static str = "Épisode sans titre";

/// The kinds of media under which recommendations are shown.
#[derive(Debug, Clone, Copy, PartialEq, Eq, Structural)]
pub enum MediaKind {
    Film,
    Livre,
    Chaine,
    Compte,
    Musique,
    Serie,
    Jeu,
    Autre,
}

/// What `str::to_lowercase` of the standard library gives for `s`.
pub uninterp spec fn lowercased(s: Seq<char>) -> Seq<char>;

/// `str::to_lowercase`: the lowercase equivalent of `s` as Unicode defines it, which
/// depends on `s` alone. The contract gives the result its name and claims nothing more.
#[verifier::external_body]
fn lowercase(s: &str) -> (out: String)
    ensures
        out@ == lowercased(s@),
{
    s.to_lowercase()
}

/// The kind that a media tag in lower case stands for.
pub open spec fn media_kind_of(lowered: Seq<char>) -> MediaKind {
    if lowered == "film"@ {
        MediaKind::Film
    } else if lowered == "livre"@ {
        MediaKind::Livre
    } else if lowered == "chaine youtube"@ || lowered == "chaine twitch"@ {
        MediaKind::Chaine
    } else if lowered == "compte instagram"@ || lowered == "compte tiktok"@ {
        MediaKind::Compte
    } else if lowered == "musique"@ {
        MediaKind::Musique
    } else if lowered == "série"@ {
        MediaKind::Serie
    } else if lowered == "jeu"@ {
        MediaKind::Jeu
    } else {
        MediaKind::Autre
    }
}

/// The kind that a media tag stands for, once the tag is in lower case.
pub fn classify_media(lowered: &str) -> (kind: MediaKind)
    ensures
        kind == media_kind_of(lowered@),
{
    if same_text(lowered, "film") {
        MediaKind::Film
    } else if same_text(lowered, "livre") {
        MediaKind::Livre
    } else if same_text(lowered, "chaine youtube") || same_text(lowered, "chaine twitch") {
        MediaKind::Chaine
    } else if same_text(lowered, "compte instagram") || same_text(lowered, "compte tiktok") {
        MediaKind::Compte
    } else if same_text(lowered, "musique") {
        MediaKind::Musique
    } else if same_text(lowered, "série") {
        MediaKind::Serie
    } else if same_text(lowered, "jeu") {
        MediaKind::Jeu
    } else {
        MediaKind::Autre
    }
}

/// The kind under which a recommendation with this media tag is shown: the tag counts
/// without regard to case.
pub fn media_kind(type_media: &str) -> (kind: MediaKind)
    ensures
        kind == media_kind_of(lowercased(type_media@)),
{
    let lowered = lowercase(type_media);
    classify_media(lowered.as_str())
}

impl MediaKind {
    /// The name shown for the kind.
    pub open spec fn label_of(self) -> Seq<char> {
        match self {
            MediaKind::Film => "Film"@,
            MediaKind::Livre => "Livre"@,
            MediaKind::Chaine => "Chaîne"@,
            MediaKind::Compte => "Compte"@,
            MediaKind::Musique => "Musique"@,
            MediaKind::Serie => "Série"@,
            MediaKind::Jeu => "Jeu"@,
            MediaKind::Autre => "Autre"@,
        }
    }

    /// The colour in which the kind is shown.
    pub open spec fn color_of(self) -> Seq<char> {
        match self {
            MediaKind::Film => "#ffb347"@,
            MediaKind::Livre => "#a3d977"@,
            MediaKind::Chaine => "#ff5e5e"@,
            MediaKind::Compte => "#e1306c"@,
            MediaKind::Musique => "#1db954"@,
            MediaKind::Serie => "#4a90e2"@,
            MediaKind::Jeu => "#f6c3ff"@,
            MediaKind::Autre => "#b88a2a"@,
        }
    }

    /// The name shown for the kind.
    pub fn label(self) -> (text: &'static str)
        ensures
            text@ == self.label_of(),
    {
        match self {
            MediaKind::Film => "Film",
            MediaKind::Livre => "Livre",
            MediaKind::Chaine => "Chaîne",
            MediaKind::Compte => "Compte",
            MediaKind::Musique => "Musique",
            MediaKind::Serie => "Série",
            MediaKind::Jeu => "Jeu",
            MediaKind::Autre => "Autre",
        }
    }

    /// The colour in which the kind is shown.
    pub fn color(self) -> (text: &'static str)
        ensures
            text@ == self.color_of(),
    {
        match self {
            MediaKind::Film => "#ffb347",
            MediaKind::Livre => "#a3d977",
            MediaKind::Chaine => "#ff5e5e",
            MediaKind::Compte => "#e1306c",
            MediaKind::Musique => "#1db954",
            MediaKind::Serie => "#4a90e2",
            MediaKind::Jeu => "#f6c3ff",
            MediaKind::Autre => "#b88a2a",
        }
    }
}

/// What the page shows of one recommendation; every text is safe for HTML.
#[derive(Debug, PartialEq, Eq)]
pub struct RecommendationCard {
    /// The position in the list of its episode, by which it is deleted.
    pub index: usize,
    pub contributors: String,
    pub title: String,
    /// Where the title leads, if the recommendation has a link that is not blank.
    pub link: Option<String>,
    pub kind: MediaKind,
    pub description: String,
}

/// What a recommendation card holds, as mathematical values.
pub struct RecommendationCardView {
    pub index: int,
    pub contributors: Seq<char>,
    pub title: Seq<char>,
    pub link: Option<Seq<char>>,
    pub kind: MediaKind,
    pub description: Seq<char>,
}

impl View for RecommendationCard {
    type V = RecommendationCardView;

    open spec fn view(&self) -> RecommendationCardView {
        RecommendationCardView {
            index: self.index as int,
            contributors: self.contributors@,
            title: self.title@,
            link: match self.link {
                Some(l) => Some(l@),
                None => None,
            },
            kind: self.kind,
            description: self.description@,
        }
    }
}

impl DeepView for RecommendationCard {
    type V = RecommendationCardView;

    open spec fn deep_view(&self) -> RecommendationCardView {
        self@
    }
}

/// The link shown with a recommendation: its own, made safe for HTML, unless it has
/// none or only white space.
pub open spec fn shown_link_of(lien: Option<Seq<char>>) -> Option<Seq<char>> {
    match lien {
        Some(l) => if trimmed(l).len() > 0 {
            Some(escaped(l))
        } else {
            None
        },
        None => None,
    }
}

/// The card of the recommendation that stands at `index` in its list.
pub open spec fn recommendation_card_of(index: int, rec: RecommendationView) -> RecommendationCardView {
    RecommendationCardView {
        index,
        contributors: escaped(joined(rec.chroniqueurs, ", "@)),
        title: escaped(rec.titre),
        link: shown_link_of(rec.lien),
        kind: media_kind_of(lowercased(rec.type_media)),
        description: escaped(rec.description),
    }
}

/// The cards of a list of recommendations, in the order of the list.
pub open spec fn recommendation_cards_of(list: Seq<RecommendationView>) -> Seq<RecommendationCardView> {
    Seq::new(list.len(), |i: int| recommendation_card_of(i, list[i]))
}

/// The card of the recommendation that stands at `index` in its list.
pub fn recommendation_card(index: usize, rec: &Recommendation) -> (card: RecommendationCard)
    ensures
        card@ == recommendation_card_of(index as int, rec@),
{
    let names = join(&rec.chroniqueurs, ", ");
    let link = match &rec.lien {
        Some(l) => if trim(l.as_str()).as_str().is_empty() {
            None
        } else {
            Some(escape_html(l.as_str()))
        },
        None => None,
    };
    RecommendationCard {
        index,
        contributors: escape_html(names.as_str()),
        title: escape_html(rec.titre.as_str()),
        link,
        kind: media_kind(rec.type_media.as_str()),
        description: escape_html(rec.description.as_str()),
    }
}

/// The cards of a list of recommendations, in the order of the list.
pub fn recommendation_cards(list: &Vec<Recommendation>) -> (cards: Vec<RecommendationCard>)
    ensures
        cards.deep_view() == recommendation_cards_of(list.deep_view()),
{
    let mut cards: Vec<RecommendationCard> = Vec::new();
    let mut i: usize = 0;
    while i < list.len()
        invariant
            i <= list.len(),
            cards.len() == i,
            forall|j: int| 0 <= j < i ==> cards[j]@ == recommendation_card_of(j, list[j]@),
        decreases list.len() - i,
    {
        cards.push(recommendation_card(i, &list[i]));
        i += 1;
    }
    cards
}

/// What the page shows of one episode.
#[derive(Debug, PartialEq, Eq)]
pub struct EpisodeCard {
    /// The key under which the recommendations of the episode are kept.
    pub key: String,
    /// The title to show, safe for HTML.
    pub title: String,
    /// The key as it is written into attributes of the page.
    pub anchor: String,
    /// The date as the feed gave it, safe for HTML.
    pub date: String,
    /// The description, which keeps its own HTML.
    pub description: String,
    /// The address of the picture, unless it is the placeholder.
    pub image_url: Option<String>,
    pub recommendations: Vec<RecommendationCard>,
}

/// What an episode card holds, as mathematical values.
pub struct EpisodeCardView {
    pub key: Seq<char>,
    pub title: Seq<char>,
    pub anchor: Seq<char>,
    pub date: Seq<char>,
    pub description: Seq<char>,
    pub image_url: Option<Seq<char>>,
    pub recommendations: Seq<RecommendationCardView>,
}

impl View for EpisodeCard {
    type V = EpisodeCardView;

    open spec fn view(&self) -> EpisodeCardView {
        EpisodeCardView {
            key: self.key@,
            title: self.title@,
            anchor: self.anchor@,
            date: self.date@,
            description: self.description@,
            image_url: match self.image_url {
                Some(u) => Some(u@),
                None => None,
            },
            recommendations: self.recommendations.deep_view(),
        }
    }
}

impl DeepView for EpisodeCard {
    type V = EpisodeCardView;

    open spec fn deep_view(&self) -> EpisodeCardView {
        self@
    }
}

/// Whether the page shows the episode: its title is not blank.
pub open spec fn is_shown(e: EpisodeView) -> bool {
    trimmed(e.title).len() > 0
}

/// The card of an episode, with the recommendations that the store keeps under its key.
pub open spec fn episode_card_of(e: EpisodeView, m: StoreView) -> EpisodeCardView {
    let key = episode_key_of(e.title);
    EpisodeCardView {
        key,
        title: if key.len() == 0 {
            UNTITLED@
        } else {
            escaped(key)
        },
        anchor: attribute_text_of(escaped(key)),
        date: escaped(e.date),
        description: shown_description_of(e.description),
        image_url: if first_occurrence(e.image_url, "placeholder.com"@) is Some {
            None
        } else {
            Some(e.image_url)
        },
        recommendations: recommendation_cards_of(recommendations_of(m, key)),
    }
}

/// The cards of the episodes that the page shows, in the order of the episodes.
pub open spec fn episode_cards_of(episodes: Seq<EpisodeView>, m: StoreView) -> Seq<EpisodeCardView>
    decreases episodes.len(),
{
    if episodes.len() == 0 {
        Seq::empty()
    } else if is_shown(episodes.last()) {
        episode_cards_of(episodes.drop_last(), m).push(episode_card_of(episodes.last(), m))
    } else {
        episode_cards_of(episodes.drop_last(), m)
    }
}

/// The card of an episode, with the recommendations that the store keeps under its key.
pub fn episode_card(episode: &Episode, store: &RecommendationStore) -> (card: EpisodeCard)
    ensures
        card@ == episode_card_of(episode@, store@),
{
    let key = episode_key(episode.title.as_str());
    let safe = escape_html(key.as_str());
    let anchor = attribute_text(safe.as_str());
    let title = if key.as_str().is_empty() {
        String::from_str(UNTITLED)
    } else {
        safe
    };
    let image_url = if contains(episode.image_url.as_str(), "placeholder.com") {
        None
    } else {
        Some(episode.image_url.clone())
    };
    let recommendations = match store.get(key.as_str()) {
        Some(list) => recommendation_cards(list),
        None => {
            let none: Vec<RecommendationCard> = Vec::new();
            assert(none.deep_view() =~= recommendation_cards_of(Seq::empty()));
            none
        },
    };
    EpisodeCard {
        key,
        title,
        anchor,
        date: escape_html(episode.date.as_str()),
        description: shown_description(episode.description.as_str()),
        image_url,
        recommendations,
    }
}

/// The cards of the episodes that the page shows, in the order of the episodes: an
/// episode with a blank title is left out.
pub fn episode_cards(episodes: &Vec<Episode>, store: &RecommendationStore) -> (cards: Vec<
    EpisodeCard,
>)
    ensures
        cards.deep_view() == episode_cards_of(episodes.deep_view(), store@),
{
    let mut cards: Vec<EpisodeCard> = Vec::new();
    let mut i: usize = 0;
    while i < episodes.len()
        invariant
            i <= episodes.len(),
            cards.deep_view() == episode_cards_of(episodes.deep_view().take(i as int), store@),
        decreases episodes.len() - i,
    {
        proof {
            let upto = episodes.deep_view().take(i + 1);
            assert(upto.drop_last() =~= episodes.deep_view().take(i as int));
        }
        if !trim(episodes[i].title.as_str()).as_str().is_empty() {
            let card = episode_card(&episodes[i], store);
            cards.push(card);
        }
        i += 1;
    }
    assert(episodes.deep_view().take(episodes.len() as int) =~= episodes.deep_view());
    cards
}

/// One choice of the form by which a recommendation is added: an episode to add it to.
#[derive(Debug, PartialEq, Eq)]
pub struct EpisodeOption {
    /// The key that the form submits, as it is written into the attribute.
    pub value: String,
    /// The title shown for the choice, safe for HTML.
    pub label: String,
}

/// What an option holds, as mathematical values.
pub struct EpisodeOptionView {
    pub value: Seq<char>,
    pub label: Seq<char>,
}

impl View for EpisodeOption {
    type V = EpisodeOptionView;

    open spec fn view(&self) -> EpisodeOptionView {
        EpisodeOptionView { value: self.value@, label: self.label@ }
    }
}

impl DeepView for EpisodeOption {
    type V = EpisodeOptionView;

    open spec fn deep_view(&self) -> EpisodeOptionView {
        self@
    }
}

/// The option of an episode: it submits the key under which the card of the episode
/// looks its recommendations up.
pub open spec fn episode_option_of(e: EpisodeView) -> EpisodeOptionView {
    EpisodeOptionView {
        value: attribute_text_of(escaped(episode_key_of(e.title))),
        label: escaped(episode_key_of(e.title)),
    }
}

/// The options of the episodes, one for each, in their order.
pub open spec fn episode_options_of(episodes: Seq<EpisodeView>) -> Seq<EpisodeOptionView> {
    Seq::new(episodes.len(), |i: int| episode_option_of(episodes[i]))
}

/// The options of the form by which a recommendation is added: one for each episode,
/// in the order of the episodes.
pub fn episode_options(episodes: &Vec<Episode>) -> (options: Vec<EpisodeOption>)
    ensures
        options.deep_view() == episode_options_of(episodes.deep_view()),
{
    let mut options: Vec<EpisodeOption> = Vec::new();
    let mut i: usize = 0;
    while i < episodes.len()
        invariant
            i <= episodes.len(),
            options.len() == i,
            forall|j: int| 0 <= j < i ==> options[j]@ == episode_option_of(episodes[j]@),
        decreases episodes.len() - i,
    {
        let key = episode_key(episodes[i].title.as_str());
        let label = escape_html(key.as_str());
        let value = attribute_text(label.as_str());
        options.push(EpisodeOption { value, label });
        i += 1;
    }
    options
}

} // verus!
