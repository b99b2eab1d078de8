//! Reading a feed with `quick_xml`: the reader gives the events, the collector of
//! [`crate::feed`] decides.

use vstd::prelude::*;
use quick_xml::events::Event;
use quick_xml::name::QName;
use quick_xml::Reader;
use crate::episode::{Episode, EpisodeView};
use crate::feed::{
    after_event, after_text, fresh_collector, lemma_event_keeps_tidy, lemma_text_keeps_tidy,
    step_after, tidy, well_gathered, CollectorView, FeedAttribute, FeedCollector, FeedEvent,
    FeedStep,
};
use crate::recommendation::optional_text;

verus! {

/// `quick_xml::Reader`, which reads a document event by event. Of what it holds only
/// the number that [`unread`] gives for its state is seen here.
#[verifier::external_type_specification]
#[verifier::external_body]
#[verifier::reject_recursive_types(R)]
pub struct ExReader<R>(Reader<R>);

/// The state of a reader as a number: what it has left to read of its document and
/// how far it is in reading it. Two readers in the same state give the same events.
pub uninterp spec fn unread(reader: Reader<&[u8]>) -> int;

/// The state of a reader that was opened on `xml` and has read nothing yet.
pub uninterp spec fn unread_of(xml: Seq<char>) -> int;

/// The event that a reader in the state `unread` gives next.
pub uninterp spec fn event_next(unread: int) -> FeedEvent;

/// The state of a reader after it gave its next event in the state `unread`.
pub uninterp spec fn unread_after_event(unread: int) -> int;

/// The text that a reader in the state `unread` gives when it reads on to the closing
/// tag named `end`; `None` where that fails.
pub uninterp spec fn text_next(unread: int, end: Seq<u8>) -> Option<Seq<char>>;

/// The state of a reader after it read on to the closing tag named `end` in the state
/// `unread`.
pub uninterp spec fn unread_after_text(unread: int, end: Seq<u8>) -> int;

/// `quick_xml::Reader::from_str`: a reader that stands at the start of `xml`. The
/// contract claims that its state depends on `xml` alone, and gives it a name.
#[verifier::external_body]
fn open_reader<'a>(xml: &'a str) -> (reader: Reader<&'a [u8]>)
    ensures
        unread(reader) == unread_of(xml@),
{
    Reader::from_str(xml)
}

/// `quick_xml::Reader::read_event_into`: reads the next event and hands it out in the
/// library's own type, a tag with its name as `BytesStart::name` gives it, an empty
/// element also with those of its attributes that could be read, each with its value as
/// `Attribute::unescape_value` gives it. The contract claims that the event and the
/// state in which the reader is left depend on the state before alone, and gives both a
/// name; it says nothing of which event comes.
#[verifier::external_body]
fn next_event(reader: &mut Reader<&[u8]>) -> (event: FeedEvent)
    ensures
        event == event_next(unread(*old(reader))),
        unread(*final(reader)) == unread_after_event(unread(*old(reader))),
{
    let mut buf = Vec::new();
    match reader.read_event_into(&mut buf) {
        Ok(Event::Start(e)) => FeedEvent::Start(e.name().as_ref().to_vec()),
        Ok(Event::End(e)) => FeedEvent::End(e.name().as_ref().to_vec()),
        Ok(Event::Empty(e)) => FeedEvent::Empty(
            e.name().as_ref().to_vec(),
            e.attributes().flatten().map(|a| FeedAttribute {
                key: a.key.as_ref().to_vec(),
                value: a.unescape_value().ok().map(|v| v.into_owned()),
            }).collect(),
        ),
        Ok(Event::Eof) => FeedEvent::Eof,
        _ => FeedEvent::Other,
    }
}

/// `quick_xml::Reader::read_text`: reads on to the closing tag named `end` and hands
/// out what stood before it, or `None` where that failed. The contract claims that the
/// text and the state in which the reader is left depend on the state before and on
/// `end` alone, and gives both a name; it says nothing of which text comes.
#[verifier::external_body]
fn read_text_to(reader: &mut Reader<&[u8]>, end: &[u8]) -> (text: Option<String>)
    ensures
        optional_text(text) == text_next(unread(*old(reader)), end@),
        unread(*final(reader)) == unread_after_text(unread(*old(reader)), end@),
{
    reader.read_text(QName(end)).ok().map(|text| text.into_owned())
}

/// The name of the element that `event` opens; the empty name for any other event.
pub open spec fn opened_name(event: FeedEvent) -> Seq<u8> {
    match event {
        FeedEvent::Start(name) => name@,
        _ => Seq::empty(),
    }
}

/// The episodes gathered by a reading that goes on from the reader state `rest` with
/// the collector `c`. The next event goes to the collector; where the collector asks
/// for a text, the text up to the closing tag of the element just opened is read and
/// goes to the collector too. The reading ends when the collector says so, and at the
/// latest after `left` events more than the next one.
pub open spec fn gathered_from(rest: int, c: CollectorView, left: nat) -> Seq<EpisodeView>
    decreases left,
{
    let event = event_next(rest);
    let step = step_after(c, event);
    let taken = after_event(c, event);
    let at = unread_after_event(rest);
    let end = opened_name(event);
    let (next, rest_next) = match step {
        FeedStep::ReadText(field) => (
            after_text(taken, field, text_next(at, end)),
            unread_after_text(at, end),
        ),
        _ => (taken, at),
    };
    if step == FeedStep::Stop || left == 0 {
        next.episodes
    } else {
        gathered_from(rest_next, next, (left - 1) as nat)
    }
}

/// Reads the feed `xml` from its start to its end and gathers its episodes, in the
/// order of the feed: each event goes to a [`FeedCollector`], which says what is read
/// next. The episodes are those of [`gathered_from`], over the events and texts that
/// the reader gives on `xml`; whatever it gives, each episode has the address of a
/// picture, and none of its texts has white space at its ends.
///
/// Before the reader gives the end it takes at least one byte of the feed for each
/// event, but for one failure at most: the reading stops after one event more than
/// the feed has bytes at the latest.
pub fn collect_episodes(xml: &str) -> (episodes: Vec<Episode>)
    ensures
        episodes.deep_view() == gathered_from(unread_of(xml@), fresh_collector(), xml.len() as nat),
        forall|i: int| 0 <= i < episodes.len() ==> well_gathered(#[trigger] episodes[i]@),
{
    let mut reader = open_reader(xml);
    let mut collector = FeedCollector::new();
    let mut left: usize = xml.len();
    loop
        invariant_except_break
            gathered_from(unread_of(xml@), fresh_collector(), xml.len() as nat) == gathered_from(
                unread(reader),
                collector@,
                left as nat,
            ),
        invariant
            tidy(collector@),
        ensures
            collector@.episodes == gathered_from(
                unread_of(xml@),
                fresh_collector(),
                xml.len() as nat,
            ),
        decreases left,
    {
        let event = next_event(&mut reader);
        proof {
            lemma_event_keeps_tidy(collector@, event);
        }
        match collector.on_event(&event) {
            FeedStep::Stop => {
                break ;
            },
            FeedStep::ReadText(field) => {
                let text = match &event {
                    FeedEvent::Start(name) => read_text_to(&mut reader, name.as_slice()),
                    _ => None,
                };
                proof {
                    lemma_text_keeps_tidy(collector@, field, optional_text(text));
                }
                collector.on_text(field, text);
            },
            FeedStep::Continue => {},
        }
        if left == 0 {
            break ;
        }
        left -= 1;
    }
    let ghost gathered = collector@.episodes;
    let episodes = collector.into_episodes();
    assert forall|i: int| 0 <= i < episodes.len() implies well_gathered(
        #[trigger] episodes[i]@,
    ) by {
        assert(gathered[i] == episodes[i]@);
    }
    episodes
}

} // verus!
