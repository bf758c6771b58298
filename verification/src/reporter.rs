use crate::loader::{DiscardedOrder, DiscardedOrderView};
use crate::transformer::{DiscardedRecord, DiscardedRecordView};
use vstd::prelude::*;

verus! {

/// Something handed to a reporter.
pub enum Report {
    Record(DiscardedRecordView),
    Order(DiscardedOrderView),
}

/// Takes what the pipeline discards.
pub trait Reporter {
    /// Everything handed to this reporter so far, oldest first. Each implementation defines
    /// it: the body given here lets one that is not verified leave it out, and of one that is
    /// verified neither method can be proved with it.
    open spec fn reports(&self) -> Seq<Report> {
        Seq::empty()
    }

    fn report_record(&mut self, discarded_record: DiscardedRecord)
        ensures
            final(self).reports() == old(self).reports().push(Report::Record(discarded_record@)),
    ;

    fn report_order(&mut self, discarded_order: DiscardedOrder)
        ensures
            final(self).reports() == old(self).reports().push(Report::Order(discarded_order@)),
    ;
}

} // verus!
