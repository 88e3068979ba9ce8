//! Reading the records of an answer from its wire format, through the
//! `domain` crate's message parser.

use crate::answer::{items_view, DiagnosticOutcome, DiagnosticOutcomeView, RecordItem, RecordItemView, Section};
use crate::name::DomainName;
use domain::base::message::Section as MessageSection;
use domain::base::{Message, ParsedName, ToName};
use domain::rdata::ZoneRecordData;
use vstd::prelude::*;

verus! {

/// The items that `domain::base::Message` yields for a message in wire
/// format: one for each step of `Message::iter`, in order. A record that
/// was read is given with its section, type and owner, and with the text
/// that `ZoneRecordData` displays for its content where that could be
/// decoded; an error of the iterator is given with its text. `None` where
/// `Message::from_octets` refuses the octets as too short for a header.
pub uninterp spec fn message_items(wire: Seq<u8>) -> Option<Seq<RecordItemView>>;

/// Calls `Message::from_octets` and walks `Message::iter`, decoding each
/// record with `ParsedRecord::to_record`. Trusted: the items depend on the
/// octets alone.
#[verifier::external_body]
fn read_records(wire: &[u8]) -> (r: Option<Vec<RecordItem>>)
    ensures
        match r {
            Some(items) => message_items(wire@) == Some(items_view(items@)),
            None => message_items(wire@) is None,
        },
{
    let message = Message::from_octets(wire).ok()?;
    Some(message.iter().map(|item| match item {
        Ok((record, section)) => RecordItem::Parsed {
            section: match section {
                MessageSection::Answer => Section::Answer,
                MessageSection::Authority => Section::Authority,
                MessageSection::Additional => Section::Additional,
            },
            rtype: record.rtype().to_int(),
            owner: DomainName { octets: record.owner().to_vec().into_octets() },
            data: record.to_record::<ZoneRecordData<_, ParsedName<_>>>().ok().flatten().map(|r| r.data().to_string()),
        },
        Err(err) => RecordItem::Malformed { message: err.to_string() },
    }).collect())
}

/// The outcome that the items of a message amount to: an answer with these
/// items, or a failure where the message held no header.
pub open spec fn outcome_of_items(items: Option<Seq<RecordItemView>>) -> DiagnosticOutcomeView {
    match items {
        Some(items) => DiagnosticOutcomeView::Answered { items },
        None => DiagnosticOutcomeView::Failed { message: "message too short"@ },
    }
}

/// Turns what reading a message gave into the outcome of its query.
pub fn outcome_from_items(items: Option<Vec<RecordItem>>) -> (r: DiagnosticOutcome)
    ensures
        r@ == outcome_of_items(
            match items {
                Some(items) => Some(items_view(items@)),
                None => None,
            },
        ),
{
    match items {
        Some(items) => DiagnosticOutcome::Answered { items },
        None => DiagnosticOutcome::Failed { message: "message too short".to_owned() },
    }
}

/// Reads the answer to a diagnostic query from its wire format. Every
/// record becomes an item of its own; none hides another.
pub fn read_answer(wire: &[u8]) -> (r: DiagnosticOutcome)
    ensures
        r@ == outcome_of_items(message_items(wire@)),
{
    outcome_from_items(read_records(wire))
}

} // verus!
