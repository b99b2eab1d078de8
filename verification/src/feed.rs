//! The collector that gathers the episodes of a feed from the events of reading it.

use vstd::prelude::*;
use vstd::string::StringSliceAdditionalSpecFns;
use crate::episode::{Episode, EpisodeView, PLACEHOLDER_IMAGE};
use crate::recommendation::optional_text;
use crate::text::{is_trimmed, lemma_trimmed_is_trimmed, trim, trimmed};

verus! {

/// The elements of a feed that the collector knows.
#[derive(Debug, Clone, Copy, PartialEq, Eq, Structural)]
pub enum FeedTag {
    Item,
    Title,
    PubDate,
    Description,
    Image,
    Other,
}

/// The text of an episode that an element of the feed holds.
#[derive(Debug, Clone, Copy, PartialEq, Eq, Structural)]
pub enum FeedField {
    Title,
    Date,
    Description,
}

/// One attribute of an element: its name, and its value where the value could be read.
#[derive(Debug, PartialEq, Eq)]
pub struct FeedAttribute {
    pub key: Vec<u8>,
    pub value: Option<String>,
}

/// One event of reading a feed.
#[derive(Debug, PartialEq, Eq)]
pub enum FeedEvent {
    /// An opening tag, with its name.
    Start(Vec<u8>),
    /// A closing tag, with its name.
    End(Vec<u8>),
    /// An element without content, with its name and its attributes in their order.
    Empty(Vec<u8>, Vec<FeedAttribute>),
    /// The end of the feed.
    Eof,
    /// Anything else, a failed read too.
    Other,
}

/// What the reader of the feed does next.
#[derive(Debug, Clone, Copy, PartialEq, Eq, Structural)]
pub enum FeedStep {
    /// Read the next event.
    Continue,
    /// Read the text up to the closing tag of the element just opened and hand it over
    /// for this field; then read the next event.
    ReadText(FeedField),
    /// Stop reading.
    Stop,
}

/// The element that a tag name stands for.
pub open spec fn tag_of(name: Seq<u8>) -> FeedTag {
    if name == "item".spec_bytes() {
        FeedTag::Item
    } else if name == "title".spec_bytes() {
        FeedTag::Title
    } else if name == "pubDate".spec_bytes() {
        FeedTag::PubDate
    } else if name == "description".spec_bytes() {
        FeedTag::Description
    } else if name == "itunes:image".spec_bytes() {
        FeedTag::Image
    } else {
        FeedTag::Other
    }
}

/// Whether the two byte strings are the same.
pub fn same_bytes(a: &[u8], b: &[u8]) -> (same: bool)
    ensures
        same == (a@ == b@),
{
    if a.len() != b.len() {
        return false;
    }
    let mut i: usize = 0;
    while i < a.len()
        invariant
            a.len() == b.len(),
            i <= a.len(),
            forall|j: int| 0 <= j < i ==> a[j] == b[j],
        decreases a.len() - i,
    {
        if a[i] != b[i] {
            return false;
        }
        i += 1;
    }
    assert(a@ =~= b@);
    true
}

/// The element that a tag name stands for.
pub fn classify_tag(name: &[u8]) -> (tag: FeedTag)
    ensures
        tag == tag_of(name@),
{
    if same_bytes(name, "item".as_bytes()) {
        FeedTag::Item
    } else if same_bytes(name, "title".as_bytes()) {
        FeedTag::Title
    } else if same_bytes(name, "pubDate".as_bytes()) {
        FeedTag::PubDate
    } else if same_bytes(name, "description".as_bytes()) {
        FeedTag::Description
    } else if same_bytes(name, "itunes:image".as_bytes()) {
        FeedTag::Image
    } else {
        FeedTag::Other
    }
}

/// The text that was read, or the empty text where none could be read.
pub open spec fn text_or_empty(text: Option<Seq<char>>) -> Seq<char> {
    match text {
        Some(t) => t,
        None => Seq::empty(),
    }
}

/// The address that the attributes give for a picture: the trimmed value of the last
/// attribute named `href`, or `current` where there is none.
pub open spec fn href_of(attributes: Seq<FeedAttribute>, current: Seq<char>) -> Seq<char>
    decreases attributes.len(),
{
    if attributes.len() == 0 {
        current
    } else if attributes.last().key@ == "href".spec_bytes() {
        trimmed(text_or_empty(optional_text(attributes.last().value)))
    } else {
        href_of(attributes.drop_last(), current)
    }
}

/// The picture of an episode: its own address, or the placeholder where it has none.
pub open spec fn image_or_placeholder(url: Seq<char>) -> Seq<char> {
    if url.len() == 0 {
        PLACEHOLDER_IMAGE@
    } else {
        url
    }
}

/// What the collector holds, as mathematical values.
pub struct CollectorView {
    pub in_item: bool,
    pub title: Seq<char>,
    pub date: Seq<char>,
    pub description: Seq<char>,
    pub image_url: Seq<char>,
    pub episodes: Seq<EpisodeView>,
}

/// The collector that has taken nothing in yet.
pub open spec fn fresh_collector() -> CollectorView {
    CollectorView {
        in_item: false,
        title: Seq::empty(),
        date: Seq::empty(),
        description: Seq::empty(),
        image_url: Seq::empty(),
        episodes: Seq::empty(),
    }
}

/// The episode that the collector has gathered the texts of.
pub open spec fn gathered_episode(c: CollectorView) -> EpisodeView {
    EpisodeView {
        title: c.title,
        date: c.date,
        description: c.description,
        image_url: image_or_placeholder(c.image_url),
    }
}

/// The collector after an event.
pub open spec fn after_event(c: CollectorView, event: FeedEvent) -> CollectorView {
    match event {
        FeedEvent::Start(name) => if tag_of(name@) == FeedTag::Item {
            CollectorView {
                in_item: true,
                title: Seq::empty(),
                date: Seq::empty(),
                description: Seq::empty(),
                image_url: Seq::empty(),
                episodes: c.episodes,
            }
        } else {
            c
        },
        FeedEvent::End(name) => if tag_of(name@) == FeedTag::Item {
            CollectorView {
                in_item: false,
                episodes: if c.in_item {
                    c.episodes.push(gathered_episode(c))
                } else {
                    c.episodes
                },
                ..c
            }
        } else {
            c
        },
        FeedEvent::Empty(name, attributes) => if c.in_item && tag_of(name@) == FeedTag::Image {
            CollectorView { image_url: href_of(attributes@, c.image_url), ..c }
        } else {
            c
        },
        FeedEvent::Eof => c,
        FeedEvent::Other => c,
    }
}

/// What the reader does after an event that found the collector as `c`.
pub open spec fn step_after(c: CollectorView, event: FeedEvent) -> FeedStep {
    match event {
        FeedEvent::Start(name) => if c.in_item && tag_of(name@) == FeedTag::Title {
            FeedStep::ReadText(FeedField::Title)
        } else if c.in_item && tag_of(name@) == FeedTag::PubDate {
            FeedStep::ReadText(FeedField::Date)
        } else if c.in_item && tag_of(name@) == FeedTag::Description {
            FeedStep::ReadText(FeedField::Description)
        } else {
            FeedStep::Continue
        },
        FeedEvent::Eof => FeedStep::Stop,
        _ => FeedStep::Continue,
    }
}

/// The collector after the text of a field was read: the field holds the text, trimmed,
/// or the empty text where none could be read.
pub open spec fn after_text(c: CollectorView, field: FeedField, text: Option<Seq<char>>) -> CollectorView {
    let value = trimmed(text_or_empty(text));
    match field {
        FeedField::Title => CollectorView { title: value, ..c },
        FeedField::Date => CollectorView { date: value, ..c },
        FeedField::Description => CollectorView { description: value, ..c },
    }
}

/// Whether an episode is as the collector hands episodes out: it has the address of a
/// picture, and none of its texts has white space at its ends.
pub open spec fn well_gathered(e: EpisodeView) -> bool {
    &&& e.image_url.len() > 0
    &&& is_trimmed(e.image_url)
    &&& is_trimmed(e.title)
    &&& is_trimmed(e.date)
    &&& is_trimmed(e.description)
}

/// Whether the collector holds only trimmed texts and well gathered episodes.
pub open spec fn tidy(c: CollectorView) -> bool {
    &&& is_trimmed(c.image_url)
    &&& is_trimmed(c.title)
    &&& is_trimmed(c.date)
    &&& is_trimmed(c.description)
    &&& forall|i: int| 0 <= i < c.episodes.len() ==> well_gathered(#[trigger] c.episodes[i])
}

/// The address that attributes give has no white space at its ends, if the address
/// before them had none.
proof fn lemma_href_is_trimmed(attributes: Seq<FeedAttribute>, current: Seq<char>)
    requires
        is_trimmed(current),
    ensures
        is_trimmed(href_of(attributes, current)),
    decreases attributes.len(),
{
    if attributes.len() > 0 {
        lemma_trimmed_is_trimmed(text_or_empty(optional_text(attributes.last().value)));
        lemma_href_is_trimmed(attributes.drop_last(), current);
    }
}

/// A tidy collector stays tidy, whatever event comes.
pub proof fn lemma_event_keeps_tidy(c: CollectorView, event: FeedEvent)
    requires
        tidy(c),
    ensures
        tidy(after_event(c, event)),
{
    reveal_strlit("https://via.placeholder.com/350x200?text=No+Image");
    if let FeedEvent::Empty(_, attributes) = event {
        lemma_href_is_trimmed(attributes@, c.image_url);
    }
}

/// A tidy collector stays tidy, whatever text is read.
pub proof fn lemma_text_keeps_tidy(c: CollectorView, field: FeedField, text: Option<Seq<char>>)
    requires
        tidy(c),
    ensures
        tidy(after_text(c, field, text)),
{
    lemma_trimmed_is_trimmed(text_or_empty(text));
}

/// Gathers the episodes of a feed from the events of reading it.
pub struct FeedCollector {
    pub in_item: bool,
    pub title: String,
    pub date: String,
    pub description: String,
    pub image_url: String,
    pub episodes: Vec<Episode>,
}

impl View for FeedCollector {
    type V = CollectorView;

    open spec fn view(&self) -> CollectorView {
        CollectorView {
            in_item: self.in_item,
            title: self.title@,
            date: self.date@,
            description: self.description@,
            image_url: self.image_url@,
            episodes: self.episodes.deep_view(),
        }
    }
}

/// The trimmed value of the last attribute named `href`, or `current` where there is none.
fn href_among(attributes: &Vec<FeedAttribute>, current: String) -> (url: String)
    ensures
        url@ == href_of(attributes@, current@),
{
    let mut i: usize = attributes.len();
    proof {
        assert(attributes@.take(attributes.len() as int) =~= attributes@);
    }
    while i > 0
        invariant
            i <= attributes.len(),
            href_of(attributes@, current@) == href_of(attributes@.take(i as int), current@),
        decreases i,
    {
        proof {
            assert(attributes@.take(i as int).drop_last() =~= attributes@.take(i - 1));
        }
        i -= 1;
        if same_bytes(attributes[i].key.as_slice(), "href".as_bytes()) {
            return match &attributes[i].value {
                Some(v) => trim(v.as_str()),
                None => String::new(),
            };
        }
    }
    current
}

impl FeedCollector {
    /// A collector that has seen nothing yet.
    pub fn new() -> (collector: Self)
        ensures
            collector@ == fresh_collector(),
    {
        let collector = FeedCollector {
            in_item: false,
            title: String::new(),
            date: String::new(),
            description: String::new(),
            image_url: String::new(),
            episodes: Vec::new(),
        };
        assert(collector.episodes.deep_view() =~= Seq::<EpisodeView>::empty());
        collector
    }

    /// Takes one event in and says what the reader does next.
    pub fn on_event(&mut self, event: &FeedEvent) -> (step: FeedStep)
        ensures
            final(self)@ == after_event(old(self)@, *event),
            step == step_after(old(self)@, *event),
    {
        match event {
            FeedEvent::Start(name) => {
                let tag = classify_tag(name.as_slice());
                match tag {
                    FeedTag::Item => {
                        self.in_item = true;
                        self.title = String::new();
                        self.date = String::new();
                        self.description = String::new();
                        self.image_url = String::new();
                        FeedStep::Continue
                    },
                    FeedTag::Title => if self.in_item {
                        FeedStep::ReadText(FeedField::Title)
                    } else {
                        FeedStep::Continue
                    },
                    FeedTag::PubDate => if self.in_item {
                        FeedStep::ReadText(FeedField::Date)
                    } else {
                        FeedStep::Continue
                    },
                    FeedTag::Description => if self.in_item {
                        FeedStep::ReadText(FeedField::Description)
                    } else {
                        FeedStep::Continue
                    },
                    _ => FeedStep::Continue,
                }
            },
            FeedEvent::End(name) => {
                if classify_tag(name.as_slice()) == FeedTag::Item {
                    if self.in_item {
                        let image_url = if self.image_url.as_str().is_empty() {
                            String::from_str(PLACEHOLDER_IMAGE)
                        } else {
                            self.image_url.clone()
                        };
                        let ghost before = self.episodes.deep_view();
                        let episode = Episode {
                            title: self.title.clone(),
                            date: self.date.clone(),
                            description: self.description.clone(),
                            image_url,
                        };
                        self.episodes.push(episode);
                        assert(self.episodes.deep_view() =~= before.push(episode@));
                    }
                    self.in_item = false;
                }
                FeedStep::Continue
            },
            FeedEvent::Empty(name, attributes) => {
                if self.in_item && classify_tag(name.as_slice()) == FeedTag::Image {
                    self.image_url = href_among(attributes, self.image_url.clone());
                }
                FeedStep::Continue
            },
            FeedEvent::Eof => FeedStep::Stop,
            FeedEvent::Other => FeedStep::Continue,
        }
    }

    /// Takes in the text that was read for a field; `None` where none could be read.
    pub fn on_text(&mut self, field: FeedField, text: Option<String>)
        ensures
            final(self)@ == after_text(old(self)@, field, optional_text(text)),
    {
        let value = match &text {
            Some(t) => trim(t.as_str()),
            None => String::new(),
        };
        match field {
            FeedField::Title => {
                self.title = value;
            },
            FeedField::Date => {
                self.date = value;
            },
            FeedField::Description => {
                self.description = value;
            },
        }
    }

    /// The episodes gathered so far, in the order of the feed.
    pub fn into_episodes(self) -> (episodes: Vec<Episode>)
        ensures
            episodes.deep_view() == self@.episodes,
    {
        self.episodes
    }
}

} // verus!
