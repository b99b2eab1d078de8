//! Episodes as the feed gives them, the key under which the recommendations of an
//! episode are kept, and the description as the page shows it.

use vstd::prelude::*;
use crate::text::{
    find, first_occurrence, is_trimmed, lemma_trimmed_is_trimmed, replace, replaced, trim,
    trim_end, trim_end_of, trimmed,
};

verus! {

/// The address that stands for the picture of an episode that has none.
pub const PLACEHOLDER_IMAGE: &'static str = "https://via.placeholder.com/350x200?text=No+Image";

/// One episode of the feed, its texts as the feed gave them.
#[derive(Debug, PartialEq, Eq)]
pub struct Episode {
    pub title: String,
    pub date: String,
    pub description: String,
    pub image_url: String,
}

/// What an episode holds, as mathematical values.
pub struct EpisodeView {
    pub title: Seq<char>,
    pub date: Seq<char>,
    pub description: Seq<char>,
    pub image_url: Seq<char>,
}

impl View for Episode {
    type V = EpisodeView;

    open spec fn view(&self) -> EpisodeView {
        EpisodeView {
            title: self.title@,
            date: self.date@,
            description: self.description@,
            image_url: self.image_url@,
        }
    }
}

impl DeepView for Episode {
    type V = EpisodeView;

    open spec fn deep_view(&self) -> EpisodeView {
        self@
    }
}

impl Clone for Episode {
    fn clone(&self) -> (copy: Self)
        ensures
            copy@ == self@,
    {
        Episode {
            title: self.title.clone(),
            date: self.date.clone(),
            description: self.description.clone(),
            image_url: self.image_url.clone(),
        }
    }
}

/// `s` without the markers that open and close a CDATA section.
pub open spec fn without_cdata_markers(s: Seq<char>) -> Seq<char> {
    replaced(replaced(s, "<![CDATA["@, ""@), "]]>"@, ""@)
}

/// The key under which the recommendations of an episode are kept: its title without
/// the CDATA markers and without the white space at either end.
pub open spec fn episode_key_of(raw_title: Seq<char>) -> Seq<char> {
    trimmed(without_cdata_markers(raw_title))
}

/// The key under which the recommendations of the episode with this title are kept.
/// It has no white space at its ends.
pub fn episode_key(raw_title: &str) -> (key: String)
    ensures
        key@ == episode_key_of(raw_title@),
        is_trimmed(key@),
{
    proof {
        lemma_trimmed_is_trimmed(without_cdata_markers(raw_title@));
    }
    let opened = replace(raw_title, "<![CDATA[", "");
    let closed = replace(opened.as_str(), "]]>", "");
    trim(closed.as_str())
}

/// `s` with the entities for a space, `&`, `"`, `<` and `>` written out, in this order.
pub open spec fn with_entities_decoded(s: Seq<char>) -> Seq<char> {
    replaced(
        replaced(
            replaced(replaced(replaced(s, "&nbsp;"@, " "@), "&amp;"@, "&"@), "&quot;"@, "\""@),
            "&lt;"@,
            "<"@,
        ),
        "&gt;"@,
        ">"@,
    )
}

/// The description of an episode as it is shown: without CDATA markers, its entities
/// written out, trimmed, and cut before the hosting notice where it has one.
pub open spec fn shown_description_of(raw: Seq<char>) -> Seq<char> {
    let text = trimmed(with_entities_decoded(without_cdata_markers(raw)));
    match first_occurrence(text, "Hébergé par Acast"@) {
        Some(at) => trim_end_of(text.subrange(0, at)),
        None => text,
    }
}

/// The description of an episode as it is shown.
pub fn shown_description(raw: &str) -> (shown: String)
    ensures
        shown@ == shown_description_of(raw@),
{
    let opened = replace(raw, "<![CDATA[", "");
    let closed = replace(opened.as_str(), "]]>", "");
    let spaced = replace(closed.as_str(), "&nbsp;", " ");
    let amp = replace(spaced.as_str(), "&amp;", "&");
    let quoted = replace(amp.as_str(), "&quot;", "\"");
    let lt = replace(quoted.as_str(), "&lt;", "<");
    let gt = replace(lt.as_str(), "&gt;", ">");
    let text = trim(gt.as_str());
    match find(text.as_str(), "Hébergé par Acast") {
        Some(at) => trim_end(text.as_str().substring_char(0, at)),
        None => text,
    }
}

} // verus!
