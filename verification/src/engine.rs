use crate::extractor::Extractor;
use crate::loader::{DiscardedOrderView, Load, Loader};
use crate::order::OrderView;
use crate::record::Record;
use crate::reporter::{Report, Reporter};
use crate::transformer::{DiscardedRecordView, Transformer};
use vstd::prelude::*;
use vstd::std_specs::iter::IteratorSpec;

verus! {

/// What the transformer makes of each of the records, in their order.
pub open spec fn outcomes<R: Record, T: Transformer<R>>(transformer: &T, records: Seq<R>) -> Seq<
    Result<OrderView, DiscardedRecordView>,
> {
    Seq::new(
        records.len(),
        |i: int| transformer.outcome(records[i].spec_id(), records[i].fields()),
    )
}

/// The orders among the outcomes, in their order.
pub open spec fn accepted(outcomes: Seq<Result<OrderView, DiscardedRecordView>>) -> Seq<OrderView>
    decreases outcomes.len(),
{
    if outcomes.len() == 0 {
        Seq::empty()
    } else {
        match outcomes.last() {
            Ok(order) => accepted(outcomes.drop_last()).push(order),
            Err(_) => accepted(outcomes.drop_last()),
        }
    }
}

/// The discarded records among the outcomes, in their order.
pub open spec fn rejected(outcomes: Seq<Result<OrderView, DiscardedRecordView>>) -> Seq<
    DiscardedRecordView,
>
    decreases outcomes.len(),
{
    if outcomes.len() == 0 {
        Seq::empty()
    } else {
        match outcomes.last() {
            Ok(_) => rejected(outcomes.drop_last()),
            Err(discarded) => rejected(outcomes.drop_last()).push(discarded),
        }
    }
}

/// The orders handed over in the calls.
pub open spec fn orders_of(loads: Seq<Load>) -> Seq<OrderView> {
    Seq::new(loads.len(), |i: int| loads[i].order)
}

/// What goes to the reporter when the records with these outcomes are processed in their
/// order and `loads` are the calls of the loader, one for each order: each discarded record
/// where it stands, and each order that the loader gave back where that order stands.
pub open spec fn reported(
    outcomes: Seq<Result<OrderView, DiscardedRecordView>>,
    loads: Seq<Load>,
) -> Seq<Report>
    decreases outcomes.len(),
{
    if outcomes.len() == 0 {
        Seq::empty()
    } else {
        match outcomes.last() {
            Err(discarded) => reported(outcomes.drop_last(), loads).push(Report::Record(discarded)),
            Ok(_) => if loads.len() == 0 {
                reported(outcomes.drop_last(), loads)
            } else {
                match loads.last().discarded {
                    Some(discarded) => reported(outcomes.drop_last(), loads.drop_last()).push(
                        Report::Order(discarded),
                    ),
                    None => reported(outcomes.drop_last(), loads.drop_last()),
                }
            },
        }
    }
}

/// The discarded records among what was reported, in their order.
pub open spec fn records_in(reports: Seq<Report>) -> Seq<DiscardedRecordView>
    decreases reports.len(),
{
    if reports.len() == 0 {
        Seq::empty()
    } else {
        match reports.last() {
            Report::Record(discarded) => records_in(reports.drop_last()).push(discarded),
            Report::Order(_) => records_in(reports.drop_last()),
        }
    }
}

/// The discarded orders among what was reported, in their order.
pub open spec fn orders_in(reports: Seq<Report>) -> Seq<DiscardedOrderView>
    decreases reports.len(),
{
    if reports.len() == 0 {
        Seq::empty()
    } else {
        match reports.last() {
            Report::Record(_) => orders_in(reports.drop_last()),
            Report::Order(discarded) => orders_in(reports.drop_last()).push(discarded),
        }
    }
}

/// What the loader gave back in the calls, in their order.
pub open spec fn given_back(loads: Seq<Load>) -> Seq<DiscardedOrderView>
    decreases loads.len(),
{
    if loads.len() == 0 {
        Seq::empty()
    } else {
        match loads.last().discarded {
            Some(discarded) => given_back(loads.drop_last()).push(discarded),
            None => given_back(loads.drop_last()),
        }
    }
}

/// Every record either makes an order or is discarded: none is lost and none counts twice.
pub proof fn lemma_every_record_counts(outcomes: Seq<Result<OrderView, DiscardedRecordView>>)
    ensures
        accepted(outcomes).len() + rejected(outcomes).len() == outcomes.len(),
    decreases outcomes.len(),
{
    if outcomes.len() > 0 {
        lemma_every_record_counts(outcomes.drop_last());
    }
}

/// A record that makes an order has its order among those handed to the loader, whatever
/// became of the records before and after it.
pub proof fn lemma_order_is_accepted(
    outcomes: Seq<Result<OrderView, DiscardedRecordView>>,
    at: int,
)
    requires
        0 <= at < outcomes.len(),
        outcomes[at] is Ok,
    ensures
        accepted(outcomes).contains(outcomes[at]->Ok_0),
    decreases outcomes.len(),
{
    let front = outcomes.drop_last();
    if at == outcomes.len() - 1 {
        let orders = accepted(front).push(outcomes[at]->Ok_0);
        assert(orders[orders.len() - 1] == outcomes[at]->Ok_0);
    } else {
        lemma_order_is_accepted(front, at);
        let order = front[at]->Ok_0;
        let i: int = choose|i: int| 0 <= i < accepted(front).len() && accepted(front)[i] == order;
        assert(accepted(outcomes)[i] == order);
    }
}

/// A record that is discarded is among the discarded records, whatever became of the records
/// before and after it.
pub proof fn lemma_discard_is_rejected(
    outcomes: Seq<Result<OrderView, DiscardedRecordView>>,
    at: int,
)
    requires
        0 <= at < outcomes.len(),
        outcomes[at] is Err,
    ensures
        rejected(outcomes).contains(outcomes[at]->Err_0),
    decreases outcomes.len(),
{
    let front = outcomes.drop_last();
    if at == outcomes.len() - 1 {
        let discards = rejected(front).push(outcomes[at]->Err_0);
        assert(discards[discards.len() - 1] == outcomes[at]->Err_0);
    } else {
        lemma_discard_is_rejected(front, at);
        let discarded = front[at]->Err_0;
        let i: int = choose|i: int| 0 <= i < rejected(front).len() && rejected(front)[i] == discarded;
        assert(rejected(outcomes)[i] == discarded);
    }
}

/// The reporter gets the discarded records, all of them and in their order, and the orders
/// that the loader gave back, all of them and in their order, and nothing else.
pub proof fn lemma_reports_are_the_discards(
    outcomes: Seq<Result<OrderView, DiscardedRecordView>>,
    loads: Seq<Load>,
)
    requires
        loads.len() == accepted(outcomes).len(),
    ensures
        records_in(reported(outcomes, loads)) == rejected(outcomes),
        orders_in(reported(outcomes, loads)) == given_back(loads),
        reported(outcomes, loads).len() == rejected(outcomes).len() + given_back(loads).len(),
    decreases outcomes.len(),
{
    if outcomes.len() == 0 {
    } else {
        let front = outcomes.drop_last();
        match outcomes.last() {
            Err(discarded) => {
                lemma_reports_are_the_discards(front, loads);
                let reports = reported(front, loads).push(Report::Record(discarded));
                assert(reports.drop_last() =~= reported(front, loads));
            },
            Ok(_) => {
                lemma_reports_are_the_discards(front, loads.drop_last());
                match loads.last().discarded {
                    Some(discarded) => {
                        let reports = reported(front, loads.drop_last()).push(
                            Report::Order(discarded),
                        );
                        assert(reports.drop_last() =~= reported(front, loads.drop_last()));
                    },
                    None => {},
                }
            },
        }
    }
}

/// Where every record makes an order and the loader takes every order, nothing is reported.
pub proof fn lemma_clean_run_reports_nothing(
    outcomes: Seq<Result<OrderView, DiscardedRecordView>>,
    loads: Seq<Load>,
)
    requires
        loads.len() == accepted(outcomes).len(),
        forall|i: int| 0 <= i < outcomes.len() ==> (#[trigger] outcomes[i]) is Ok,
        forall|i: int| 0 <= i < loads.len() ==> (#[trigger] loads[i]).discarded is None,
    ensures
        accepted(outcomes).len() == outcomes.len(),
        forall|i: int| 0 <= i < outcomes.len() ==> accepted(outcomes)[i] == (
        #[trigger] outcomes[i])->Ok_0,
        reported(outcomes, loads).len() == 0,
    decreases outcomes.len(),
{
    if outcomes.len() > 0 {
        assert(outcomes.last() is Ok);
        assert(loads.last().discarded is None);
        let front = outcomes.drop_last();
        lemma_clean_run_reports_nothing(front, loads.drop_last());
        assert forall|i: int| 0 <= i < outcomes.len() implies accepted(outcomes)[i] == (
        #[trigger] outcomes[i])->Ok_0 by {
            if i < front.len() {
                assert(front[i] == outcomes[i]);
            }
        }
    }
}

/// A record that is discarded neither blocks nor drops the one beside it: of a bad record
/// and a good one, in either order, the good one's order is the one handed to the loader,
/// and where the loader takes it, the bad record's discard is the one thing reported.
pub proof fn lemma_bad_record_beside_good_one(
    bad: DiscardedRecordView,
    good: OrderView,
    bad_first: bool,
    loads: Seq<Load>,
)
    requires
        loads.len() == 1,
        loads[0].discarded is None,
    ensures
        ({
            let outcomes = if bad_first {
                seq![Err(bad), Ok(good)]
            } else {
                seq![Ok(good), Err(bad)]
            };
            &&& accepted(outcomes) == seq![good]
            &&& rejected(outcomes) == seq![bad]
            &&& reported(outcomes, loads) == seq![Report::Record(bad)]
        }),
{
    let outcomes: Seq<Result<OrderView, DiscardedRecordView>> = if bad_first {
        seq![Err(bad), Ok(good)]
    } else {
        seq![Ok(good), Err(bad)]
    };
    let front = outcomes.drop_last();
    assert(front.len() == 1);
    assert(front.drop_last().len() == 0);
    assert(front.last() == outcomes[0]);
    assert(outcomes.last() == outcomes[1]);
    assert(loads.last() == loads[0]);
    assert(loads.drop_last().len() == 0);
    reveal_with_fuel(accepted, 3);
    reveal_with_fuel(rejected, 3);
    reveal_with_fuel(reported, 3);
    assert(accepted(outcomes) =~= seq![good]);
    assert(rejected(outcomes) =~= seq![bad]);
    assert(reported(outcomes, loads) =~= seq![Report::Record(bad)]);
}

/// Drives records from an extractor through a transformer into a loader.
pub struct Engine {}

impl Engine {
    /// Takes every record that `extractor` has left, in order. Each is transformed; a record
    /// that the transformer discards goes to `reporter`, an order goes to `loader`, and an
    /// order that the loader gives back goes to `reporter`. Nothing stops the run but the end
    /// of the records, so the extractor must be one that comes to an end.
    ///
    /// The loader is called once for each order, in the order of the records, and for nothing
    /// else. The reporter is called once for each discard, where it arises, and for nothing
    /// else: the discarded records it gets are those of the transformer, all and in order.
    pub fn etl<R: Record, E: Extractor<R>, T: Transformer<R>, P: Reporter, L: Loader>(
        extractor: &mut E,
        transformer: &T,
        reporter: &mut P,
        loader: &mut L,
    )
        requires
            (*old(extractor)).obeys_prophetic_iter_laws(),
            (*old(extractor)).decrease() is Some,
        ensures
            (*final(extractor)).remaining().len() == 0,
            final(loader).loads().len() == old(loader).loads().len() + accepted(
                outcomes(transformer, (*old(extractor)).remaining()),
            ).len(),
            final(loader).loads().take(old(loader).loads().len() as int) == old(loader).loads(),
            orders_of(final(loader).loads().skip(old(loader).loads().len() as int)) == accepted(
                outcomes(transformer, (*old(extractor)).remaining()),
            ),
            final(reporter).reports() == old(reporter).reports() + reported(
                outcomes(transformer, (*old(extractor)).remaining()),
                final(loader).loads().skip(old(loader).loads().len() as int),
            ),
            records_in(final(reporter).reports().skip(old(reporter).reports().len() as int))
                == rejected(outcomes(transformer, (*old(extractor)).remaining())),
            orders_in(final(reporter).reports().skip(old(reporter).reports().len() as int))
                == given_back(final(loader).loads().skip(old(loader).loads().len() as int)),
    {
        let ghost records = (*extractor).remaining();
        let ghost before = loader.loads().len() as int;
        let ghost mut done: Seq<R> = Seq::empty();
        proof {
            assert(outcomes(transformer, done) =~= Seq::empty());
            assert(loader.loads().skip(before) =~= Seq::empty());
            assert(orders_of(loader.loads().skip(before)) =~= Seq::empty());
            assert(loader.loads().take(before) =~= loader.loads());
            assert(reporter.reports() + Seq::<Report>::empty() =~= reporter.reports());
        }
        loop
            invariant
                (*extractor).obeys_prophetic_iter_laws(),
                (*extractor).decrease() is Some,
                records == done + (*extractor).remaining(),
                before == old(loader).loads().len(),
                loader.loads().len() >= before,
                loader.loads().take(before) == old(loader).loads(),
                orders_of(loader.loads().skip(before)) == accepted(outcomes(transformer, done)),
                reporter.reports() == old(reporter).reports() + reported(
                    outcomes(transformer, done),
                    loader.loads().skip(before),
                ),
            ensures
                (*extractor).remaining().len() == 0,
                done == records,
            decreases (*extractor).decrease()->0,
        {
            let ghost so_far = outcomes(transformer, done);
            let ghost loads_before = loader.loads();
            match extractor.next() {
                None => {
                    proof {
                        assert(records =~= done);
                    }
                    break ;
                },
                Some(record) => {
                    let ghost now = transformer.outcome(record.spec_id(), record.fields());
                    proof {
                        assert(records =~= done.push(record) + (*extractor).remaining());
                        done = done.push(record);
                        assert(outcomes(transformer, done) =~= so_far.push(now));
                        assert(so_far.push(now).drop_last() =~= so_far);
                    }
                    match transformer.transform(record) {
                        Err(discarded_record) => {
                            reporter.report_record(discarded_record);
                            proof {
                                assert(reporter.reports() =~= old(reporter).reports() + reported(
                                    so_far.push(now),
                                    loader.loads().skip(before),
                                ));
                            }
                        },
                        Ok(order) => {
                            let ghost handed = order@;
                            let result = loader.load(order);
                            proof {
                                let fresh = loader.loads().skip(before);
                                assert(fresh.drop_last() =~= loads_before.skip(before));
                                assert(loader.loads().take(before) =~= loads_before.take(before));
                                assert(orders_of(fresh) =~= orders_of(
                                    loads_before.skip(before),
                                ).push(handed));
                            }
                            if let Err(discarded_order) = result {
                                reporter.report_order(discarded_order);
                            }
                            proof {
                                assert(reporter.reports() =~= old(reporter).reports() + reported(
                                    so_far.push(now),
                                    loader.loads().skip(before),
                                ));
                            }
                        },
                    }
                },
            }
        }
        proof {
            let all = outcomes(transformer, records);
            let fresh = loader.loads().skip(before);
            assert(orders_of(fresh).len() == fresh.len());
            lemma_reports_are_the_discards(all, fresh);
            assert((old(reporter).reports() + reported(all, fresh)).skip(
                old(reporter).reports().len() as int,
            ) =~= reported(all, fresh));
        }
    }
}

} // verus!
