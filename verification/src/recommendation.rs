//! The recommendation: a media citation attached to an episode.

use vstd::prelude::*;
use crate::text::{split_trimmed, trimmed_pieces};

verus! {

/// A media citation attached to one episode.
#[derive(Debug, PartialEq, Eq)]
pub struct Recommendation {
    pub chroniqueurs: Vec<String>,
    pub titre: String,
    pub lien: Option<String>,
    pub type_media: String,
    pub description: String,
}

/// What a recommendation holds, as mathematical values.
pub struct RecommendationView {
    pub chroniqueurs: Seq<Seq<char>>,
    pub titre: Seq<char>,
    pub lien: Option<Seq<char>>,
    pub type_media: Seq<char>,
    pub description: Seq<char>,
}

impl View for Recommendation {
    type V = RecommendationView;

    open spec fn view(&self) -> RecommendationView {
        RecommendationView {
            chroniqueurs: self.chroniqueurs.deep_view(),
            titre: self.titre@,
            lien: optional_text(self.lien),
            type_media: self.type_media@,
            description: self.description@,
        }
    }
}

impl DeepView for Recommendation {
    type V = RecommendationView;

    open spec fn deep_view(&self) -> RecommendationView {
        self@
    }
}

/// The recommendation that a submitted form stands for: the contributors are the pieces
/// of `chroniqueurs_raw` between its commas, each without the white space at its ends;
/// the other fields are taken as they are.
pub open spec fn recommendation_from_form(
    chroniqueurs_raw: Seq<char>,
    titre: Seq<char>,
    lien: Option<Seq<char>>,
    type_media: Seq<char>,
    description: Seq<char>,
) -> RecommendationView {
    RecommendationView {
        chroniqueurs: trimmed_pieces(chroniqueurs_raw, ','),
        titre,
        lien,
        type_media,
        description,
    }
}

/// The text that an optional text holds, as a mathematical value.
pub open spec fn optional_text(text: Option<String>) -> Option<Seq<char>> {
    match text {
        Some(t) => Some(t@),
        None => None,
    }
}

impl Recommendation {
    /// Whether the two recommendations hold the same values.
    pub fn same_as(&self, other: &Recommendation) -> (same: bool)
        ensures
            same == (self@ == other@),
    {
        same_texts(&self.chroniqueurs, &other.chroniqueurs) && self.titre == other.titre
            && same_optional_text(&self.lien, &other.lien) && self.type_media == other.type_media
            && self.description == other.description
    }

    /// Builds a recommendation from the fields of a submitted form.
    pub fn from_form(
        chroniqueurs_raw: &str,
        titre: String,
        lien: Option<String>,
        type_media: String,
        description: String,
    ) -> (rec: Self)
        ensures
            rec@ == recommendation_from_form(
                chroniqueurs_raw@,
                titre@,
                optional_text(lien),
                type_media@,
                description@,
            ),
    {
        Recommendation {
            chroniqueurs: split_trimmed(chroniqueurs_raw, ','),
            titre,
            lien,
            type_media,
            description,
        }
    }
}

/// Whether the two lists hold the same texts in the same order.
pub fn same_texts(a: &Vec<String>, b: &Vec<String>) -> (same: bool)
    ensures
        same == (a.deep_view() == b.deep_view()),
{
    if a.len() != b.len() {
        assert(a.deep_view().len() != b.deep_view().len());
        return false;
    }
    let mut i: usize = 0;
    while i < a.len()
        invariant
            a.len() == b.len(),
            i <= a.len(),
            forall|j: int| 0 <= j < i ==> a[j]@ == b[j]@,
        decreases a.len() - i,
    {
        if a[i] != b[i] {
            assert(a.deep_view()[i as int] != b.deep_view()[i as int]);
            return false;
        }
        i += 1;
    }
    assert(a.deep_view() =~= b.deep_view());
    true
}

/// Whether the two optional texts are both absent or hold the same text.
pub fn same_optional_text(a: &Option<String>, b: &Option<String>) -> (same: bool)
    ensures
        same == (optional_text(*a) == optional_text(*b)),
{
    match (a, b) {
        (Some(x), Some(y)) => *x == *y,
        (None, None) => true,
        _ => false,
    }
}

/// Copies a list of texts.
fn copy_texts(src: &Vec<String>) -> (out: Vec<String>)
    ensures
        out.deep_view() == src.deep_view(),
{
    let mut out: Vec<String> = Vec::new();
    let mut i: usize = 0;
    while i < src.len()
        invariant
            i <= src.len(),
            out.len() == i,
            forall|j: int| 0 <= j < i ==> out[j]@ == src[j]@,
        decreases src.len() - i,
    {
        out.push(src[i].clone());
        i += 1;
    }
    out
}

impl Clone for Recommendation {
    fn clone(&self) -> (copy: Self)
        ensures
            copy@ == self@,
    {
        Recommendation {
            chroniqueurs: copy_texts(&self.chroniqueurs),
            titre: self.titre.clone(),
            lien: match &self.lien {
                Some(l) => Some(l.clone()),
                None => None,
            },
            type_media: self.type_media.clone(),
            description: self.description.clone(),
        }
    }
}

} // verus!
