use crate::order::{Order, OrderView};
use crate::record::Record;
use vstd::prelude::*;

verus! {

/// What a discarded record holds.
pub struct DiscardedRecordView {
    pub id: u64,
    pub error_message: Seq<char>,
}

/// A record that did not make an order: the record's identifier and the reason.
#[derive(Debug)]
pub struct DiscardedRecord {
    id: u64,
    error_message: String,
}

impl View for DiscardedRecord {
    type V = DiscardedRecordView;

    closed spec fn view(&self) -> DiscardedRecordView {
        DiscardedRecordView { id: self.id, error_message: self.error_message@ }
    }
}

impl DiscardedRecord {
    pub fn new(id: u64, error_message: String) -> (discarded: DiscardedRecord)
        ensures
            discarded@ == (DiscardedRecordView { id, error_message: error_message@ }),
    {
        DiscardedRecord { id, error_message }
    }

    pub fn id(&self) -> (id: u64)
        ensures
            id == self@.id,
    {
        self.id
    }

    pub fn error_message(&self) -> (error_message: &str)
        ensures
            error_message@ == self@.error_message,
    {
        self.error_message.as_str()
    }
}

/// What came of a record, as contracts speak of it.
pub open spec fn outcome_view(outcome: Result<Order, DiscardedRecord>) -> Result<
    OrderView,
    DiscardedRecordView,
> {
    match outcome {
        Ok(order) => Ok(order@),
        Err(discarded) => Err(discarded@),
    }
}

/// Makes an order of a record, or says why it makes none.
pub trait Transformer<R: Record> {
    /// What this transformer makes of a record with that identifier and those fields.
    spec fn outcome(&self, id: u64, fields: Map<Seq<char>, Seq<char>>) -> Result<
        OrderView,
        DiscardedRecordView,
    >;

    /// Makes an order of `record` or discards it. The answer depends on the record's
    /// identifier and fields alone, and a discarded record bears the identifier of `record`.
    fn transform(&self, record: R) -> (result: Result<Order, DiscardedRecord>)
        ensures
            outcome_view(result) == self.outcome(record.spec_id(), record.fields()),
            result matches Err(discarded) ==> discarded@.id == record.spec_id(),
    ;
}

/// A transformer has no memory: two records with the same identifier and the same fields fare
/// alike, whenever and however often they are transformed.
pub proof fn lemma_same_record_same_outcome<R: Record, T: Transformer<R>>(
    transformer: &T,
    first: R,
    first_result: Result<Order, DiscardedRecord>,
    second: R,
    second_result: Result<Order, DiscardedRecord>,
)
    requires
        first.spec_id() == second.spec_id(),
        first.fields() == second.fields(),
        outcome_view(first_result) == transformer.outcome(first.spec_id(), first.fields()),
        outcome_view(second_result) == transformer.outcome(second.spec_id(), second.fields()),
    ensures
        outcome_view(first_result) == outcome_view(second_result),
{
}

} // verus!
