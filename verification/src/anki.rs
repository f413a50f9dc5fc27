//! The offline Anki queue: cards waiting to be sent, how they are listed,
//! and which note a queued card becomes under the configured field mapping.

use vstd::prelude::*;
use crate::numbers::{decimal, fmt_i64};
use crate::text::push_char;

verus! {

/// A card waiting in the offline queue.
#[derive(Debug, Clone)]
pub struct QueuedCard {
    /// Row id in the queue table.
    pub id: i64,
    /// The looked-up word.
    pub headword: String,
    /// Its reading.
    pub reading: String,
    /// The glossary text.
    pub definition: String,
    /// The sentence it was seen in.
    pub sentence: String,
    /// Seconds since the Unix epoch when it was queued.
    pub added_at: i64,
}

/// How a queued card is listed: `headword [reading]`.
pub open spec fn queue_label_of(headword: Seq<char>, reading: Seq<char>) -> Seq<char> {
    headword + seq![' ', '['] + reading + seq![']']
}

/// The label of the button that deletes the card with row id `id`.
pub open spec fn delete_label_of(id: i64) -> Seq<char> {
    seq!['D', 'e', 'l', 'e', 't', 'e', '#', '#'] + decimal(id as int)
}

impl QueuedCard {
    /// How the card is listed in the queue: `headword [reading]`.
    pub fn queue_label(&self) -> (s: String)
        ensures
            s@ == queue_label_of(self.headword@, self.reading@),
    {
        let mut s = self.headword.clone();
        push_char(&mut s, ' ');
        push_char(&mut s, '[');
        s.append(self.reading.as_str());
        push_char(&mut s, ']');
        assert(s@ =~= queue_label_of(self.headword@, self.reading@));
        s
    }

    /// The label of the card's delete button: `Delete##id`.
    pub fn delete_label(&self) -> (s: String)
        ensures
            s@ == delete_label_of(self.id),
    {
        let mut s = String::new();
        let word = "Delete##";
        proof {
            reveal_strlit("Delete##");
        }
        s.append(word);
        let n = fmt_i64(self.id);
        s.append(n.as_str());
        assert(s@ =~= delete_label_of(self.id));
        s
    }
}

/// Which card text a note field of the configured model receives.
#[derive(Debug, Clone)]
pub enum FieldMapping {
    /// The named field gets the headword.
    Term(String),
    /// The named field gets the reading.
    Reading(String),
    /// The named field gets the definition.
    Definition(String),
    /// The named field gets the sentence.
    Sentence(String),
    /// A mapping that a queued card has nothing for.
    Other,
}

/// The (field, value) pair that mapping `m` gives for `card`, if any.
pub open spec fn mapped_field(card: QueuedCard, m: FieldMapping) -> Option<(Seq<char>, Seq<char>)> {
    match m {
        FieldMapping::Term(f) => Some((f@, card.headword@)),
        FieldMapping::Reading(f) => Some((f@, card.reading@)),
        FieldMapping::Definition(f) => Some((f@, card.definition@)),
        FieldMapping::Sentence(f) => Some((f@, card.sentence@)),
        FieldMapping::Other => None,
    }
}

/// The note fields of `card` under `mappings`, in mapping order.
pub open spec fn note_fields_of(card: QueuedCard, mappings: Seq<FieldMapping>) -> Seq<
    (Seq<char>, Seq<char>),
>
    decreases mappings.len(),
{
    if mappings.len() == 0 {
        Seq::empty()
    } else {
        let before = note_fields_of(card, mappings.drop_last());
        match mapped_field(card, mappings.last()) {
            Some(p) => before.push(p),
            None => before,
        }
    }
}

/// The views of a list of (field, value) pairs.
pub open spec fn pair_views(v: Seq<(String, String)>) -> Seq<(Seq<char>, Seq<char>)> {
    v.map_values(|p: (String, String)| (p.0@, p.1@))
}

/// A note to add to Anki for a queued card.
pub struct NotePlan {
    /// The note model.
    pub model: String,
    /// The target deck.
    pub deck: String,
    /// The (field, value) pairs, in mapping order.
    pub fields: Vec<(String, String)>,
}

/// The note that `card` becomes under the configured model, deck and field
/// mappings; none while no model or no deck is configured.
pub fn note_plan(card: &QueuedCard, model: &str, deck: &str, mappings: &Vec<FieldMapping>) -> (r:
    Option<NotePlan>)
    ensures
        r is None <==> (model@.len() == 0 || deck@.len() == 0),
        r matches Some(plan) ==> {
            &&& plan.model@ == model@
            &&& plan.deck@ == deck@
            &&& pair_views(plan.fields@) == note_fields_of(*card, mappings@)
        },
{
    if model.unicode_len() == 0 || deck.unicode_len() == 0 {
        return None;
    }
    let mut fields: Vec<(String, String)> = Vec::new();
    let mut i: usize = 0;
    while i < mappings.len()
        invariant
            i <= mappings.len(),
            pair_views(fields@) == note_fields_of(*card, mappings@.take(i as int)),
        decreases mappings.len() - i,
    {
        let ghost before = pair_views(fields@);
        assert(mappings@.take(i + 1).drop_last() =~= mappings@.take(i as int));
        match &mappings[i] {
            FieldMapping::Term(f) => {
                fields.push((f.clone(), card.headword.clone()));
            },
            FieldMapping::Reading(f) => {
                fields.push((f.clone(), card.reading.clone()));
            },
            FieldMapping::Definition(f) => {
                fields.push((f.clone(), card.definition.clone()));
            },
            FieldMapping::Sentence(f) => {
                fields.push((f.clone(), card.sentence.clone()));
            },
            FieldMapping::Other => {},
        }
        assert(pair_views(fields@) =~= note_fields_of(*card, mappings@.take(i + 1)));
        i += 1;
    }
    assert(mappings@.take(mappings.len() as int) =~= mappings@);
    Some(NotePlan { model: model.to_owned(), deck: deck.to_owned(), fields })
}

} // verus!
