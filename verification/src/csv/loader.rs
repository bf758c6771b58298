use crate::date::printed_date;
use crate::decimal::printed_decimal;
use crate::loader::{DiscardedOrder, DiscardedOrderView};
use crate::order::{Order, OrderView};
use crate::text::{decimal_digits, u64_text};
use vstd::prelude::*;

verus! {

pub const ORDER_ID: &'static str = "Order Id";

pub const DATE_TIME: &'static str = "Date Time";

pub const PRODUCT_ID: &'static str = "Product Id";

pub const PRODUCT_NAME: &'static str = "Product Name";

pub const QUANTITY: &'static str = "Quantity";

pub const UNIT: &'static str = "Unit";

/// What the cells of a row hold.
pub open spec fn texts(row: Seq<String>) -> Seq<Seq<char>> {
    Seq::new(row.len(), |i: int| row[i]@)
}

/// The names of the six columns, in their order.
pub open spec fn header_row() -> Seq<Seq<char>> {
    seq![ORDER_ID@, DATE_TIME@, PRODUCT_ID@, PRODUCT_NAME@, QUANTITY@, UNIT@]
}

/// The six cells of an order, in the order of the columns: its id in decimal, its date, its
/// product id, its product name, its amount and its unit.
pub open spec fn order_row(order: OrderView) -> Seq<Seq<char>> {
    seq![
        decimal_digits(order.id as nat),
        printed_date(order.date.year, order.date.month, order.date.day),
        order.product_id,
        order.product_name,
        printed_decimal(order.quantity.quantity.mantissa, order.quantity.quantity.scale),
        order.quantity.unit.spec_name(),
    ]
}

/// The header row of the table that orders are written to.
pub fn headers() -> (row: Vec<String>)
    ensures
        texts(row@) == header_row(),
{
    let mut row: Vec<String> = Vec::new();
    row.push(ORDER_ID.to_owned());
    row.push(DATE_TIME.to_owned());
    row.push(PRODUCT_ID.to_owned());
    row.push(PRODUCT_NAME.to_owned());
    row.push(QUANTITY.to_owned());
    row.push(UNIT.to_owned());
    proof {
        assert(texts(row@) =~= header_row());
    }
    row
}

/// The row that `order` is written as.
pub fn row_of(order: &Order) -> (row: Vec<String>)
    ensures
        texts(row@) == order_row(order@),
{
    let mut row: Vec<String> = Vec::new();
    row.push(u64_text(order.id()));
    row.push(order.date().to_string());
    row.push(order.product_id().to_owned());
    row.push(order.product_name().to_owned());
    row.push(order.quantity().quantity().to_string());
    row.push(order.quantity().unit().name().to_owned());
    proof {
        assert(texts(row@) =~= order_row(order@));
    }
    row
}

/// What loading `order` comes to once the sink has answered: done where it reported no
/// error, and otherwise the order given back with the sink's message.
pub fn settle(order: Order, error: Option<String>) -> (result: Result<(), DiscardedOrder>)
    ensures
        match error {
            None => result is Ok,
            Some(message) => result matches Err(discarded) && discarded@ == (DiscardedOrderView {
                order: order@,
                error_message: message@,
            }),
        },
{
    match error {
        None => Ok(()),
        Some(message) => Err(DiscardedOrder::new(order, message)),
    }
}

} // verus!
