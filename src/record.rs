//! Countdown records and their identifiers.

use vstd::prelude::*;
use crate::timestamp::Timestamp;

verus! {

/// A record identifier: the 128 bits of a UUID.
#[derive(Clone, Copy, Debug, PartialEq, Eq, Structural)]
pub struct RecordId {
    pub value: u128,
}

/// A countdown: a title and a target instant, with the identifier and the
/// creation instant that the store gave it.
#[derive(Debug)]
pub struct Record {
    pub id: RecordId,
    pub title: String,
    pub target: Timestamp,
    pub created_at: Timestamp,
}

/// What a record holds, with its title as characters.
pub struct RecordView {
    pub id: RecordId,
    pub title: Seq<char>,
    pub target: Timestamp,
    pub created_at: Timestamp,
}

impl View for Record {
    type V = RecordView;

    open spec fn view(&self) -> RecordView {
        RecordView {
            id: self.id,
            title: self.title@,
            target: self.target,
            created_at: self.created_at,
        }
    }
}

impl RecordView {
    /// Both instants of the record are well formed.
    pub open spec fn wf(self) -> bool {
        self.target.wf() && self.created_at.wf()
    }
}

impl Record {
    /// A copy of the record.
    pub fn duplicate(&self) -> (r: Record)
        ensures
            r@ == self@,
    {
        Record {
            id: self.id,
            title: self.title.clone(),
            target: self.target,
            created_at: self.created_at,
        }
    }
}

/// Relies on `uuid::Uuid::new_v4`: 128 bits from the operating system's
/// random source. Nothing is known of them.
#[verifier::external_body]
pub(crate) fn random_id() -> (r: RecordId) {
    RecordId { value: uuid::Uuid::new_v4().as_u128() }
}

} // verus!
