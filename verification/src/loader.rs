use crate::order::{Order, OrderView};
use vstd::prelude::*;

verus! {

/// What a discarded order holds.
pub struct DiscardedOrderView {
    pub order: OrderView,
    pub error_message: Seq<char>,
}

/// An order that the sink did not take: the order itself and the reason.
#[derive(Debug)]
pub struct DiscardedOrder {
    order: Order,
    error_message: String,
}

impl View for DiscardedOrder {
    type V = DiscardedOrderView;

    closed spec fn view(&self) -> DiscardedOrderView {
        DiscardedOrderView { order: self.order@, error_message: self.error_message@ }
    }
}

impl DiscardedOrder {
    pub fn new(order: Order, error_message: String) -> (discarded: DiscardedOrder)
        ensures
            discarded@ == (DiscardedOrderView { order: order@, error_message: error_message@ }),
    {
        DiscardedOrder { order, error_message }
    }

    pub fn order(&self) -> (order: &Order)
        ensures
            order@ == self@.order,
    {
        &self.order
    }

    pub fn error_message(&self) -> (error_message: &str)
        ensures
            error_message@ == self@.error_message,
    {
        self.error_message.as_str()
    }
}

/// One call of `Loader::load`: the order handed over, and what came back where the sink
/// did not take it.
pub struct Load {
    pub order: OrderView,
    pub discarded: Option<DiscardedOrderView>,
}

/// What a call of `load` that returned `result` leaves in the log.
pub open spec fn load_of(order: OrderView, result: Result<(), DiscardedOrder>) -> Load {
    Load {
        order,
        discarded: match result {
            Ok(_) => None,
            Err(discarded) => Some(discarded@),
        },
    }
}

/// Writes orders to a sink.
pub trait Loader {
    /// Every call of `load` made on this loader so far, oldest first. Each implementation
    /// defines it: the body given here lets one that is not verified leave it out, and of one
    /// that is verified `load` cannot be proved with it.
    open spec fn loads(&self) -> Seq<Load> {
        Seq::empty()
    }

    /// Writes `order` to the sink. Where the sink does not take it, the order comes back
    /// with the reason.
    fn load(&mut self, order: Order) -> (result: Result<(), DiscardedOrder>)
        ensures
            final(self).loads() == old(self).loads().push(load_of(order@, result)),
            result matches Err(discarded) ==> discarded@.order == order@,
    ;
}

} // verus!
