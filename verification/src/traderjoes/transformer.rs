use crate::date::{parsed_date, Date, DateView};
use crate::decimal::{parsed_decimal, Decimal, DecimalView};
use crate::order::{title_case, Order, OrderView, Quantity, QuantityView, Unit};
use crate::record::Record;
use crate::text::{all_alphabetic, all_alphanumeric, only_alphabetic, only_alphanumeric, parse_u64, u64_of};
use crate::transformer::{DiscardedRecord, DiscardedRecordView, Transformer};
use vstd::prelude::*;
use vstd::string::*;

verus! {

pub const ORDER_NUMBER: &'static str = "Order Number";

pub const YEAR: &'static str = "Year";

pub const MONTH: &'static str = "Month";

pub const DAY: &'static str = "Day";

pub const PRODUCT_NUMBER: &'static str = "Product Number";

pub const PRODUCT_NAME: &'static str = "Product Name";

pub const COUNT: &'static str = "Count";

pub const INVALID_ORDER_NUMBER: &'static str = "Invalid order number";

pub const INVALID_DATE: &'static str = "Invalid date.";

pub const INVALID_PRODUCT_NUMBER: &'static str = "Invalid product number.";

pub const INVALID_PRODUCT_NAME: &'static str = "Invalid product name.";

pub const INVALID_COUNT: &'static str = "Invalid count.";

/// The format in which a date is read: year, month and day, with hyphens between them.
pub const DATE_FORMAT: &'static str = "%Y-%m-%d";

/// The value of the field of that name, if there is one.
pub open spec fn field(fields: Map<Seq<char>, Seq<char>>, name: Seq<char>) -> Option<Seq<char>> {
    if fields.contains_key(name) {
        Some(fields[name])
    } else {
        None
    }
}

/// The text that the date is read from: year, month and day as the record has them, with
/// hyphens between them.
pub open spec fn date_text(year: Seq<char>, month: Seq<char>, day: Seq<char>) -> Seq<char> {
    year + "-"@ + month + "-"@ + day
}

/// The number in the order number field, if the field is there and holds one.
pub open spec fn order_number(fields: Map<Seq<char>, Seq<char>>) -> Option<u64> {
    match field(fields, ORDER_NUMBER@) {
        Some(text) => u64_of(text),
        None => None,
    }
}

/// The date in the year, month and day fields, if all three are there and make one.
pub open spec fn date(fields: Map<Seq<char>, Seq<char>>) -> Option<DateView> {
    match (field(fields, YEAR@), field(fields, MONTH@), field(fields, DAY@)) {
        (Some(year), Some(month), Some(day)) => Date::of_parts(
            parsed_date(date_text(year, month, day), DATE_FORMAT@),
        ),
        _ => None,
    }
}

/// The decimal in the count field, if the field is there and holds one.
pub open spec fn count(fields: Map<Seq<char>, Seq<char>>) -> Option<DecimalView> {
    match field(fields, COUNT@) {
        Some(text) => Decimal::of_parts(parsed_decimal(text)),
        None => None,
    }
}

/// Whether `text` can be a product number: it is not empty and alphanumeric throughout.
pub open spec fn is_product_number(text: Seq<char>) -> bool {
    text.len() > 0 && all_alphanumeric(text)
}

/// Whether `text` can be a product name: it is not empty and alphabetic throughout.
pub open spec fn is_product_name(text: Seq<char>) -> bool {
    text.len() > 0 && all_alphabetic(text)
}

/// A record with that identifier, discarded for that reason.
pub open spec fn discarded(id: u64, reason: Seq<char>) -> Result<OrderView, DiscardedRecordView> {
    Err(DiscardedRecordView { id, error_message: reason })
}

/// What becomes of a record with that identifier, given what was read from its fields. The
/// checks come in a fixed order and the first that fails gives the reason: the order number
/// is there and above zero; the date is there; the product number is there, not empty and
/// all alphanumeric; the product name is there, not empty and all alphabetic; the count is
/// there and above zero. An empty value is as good as none. Where all hold, the order is made of what was read, measured in kilograms, with its
/// product name in title case.
pub open spec fn decided(
    id: u64,
    order_number: Option<u64>,
    date: Option<DateView>,
    product_number: Option<Seq<char>>,
    product_name: Option<Seq<char>>,
    count: Option<DecimalView>,
) -> Result<OrderView, DiscardedRecordView> {
    if !(order_number matches Some(number) && number > 0) {
        discarded(id, INVALID_ORDER_NUMBER@)
    } else if date is None {
        discarded(id, INVALID_DATE@)
    } else if !(product_number matches Some(number) && is_product_number(number)) {
        discarded(id, INVALID_PRODUCT_NUMBER@)
    } else if !(product_name matches Some(name) && is_product_name(name)) {
        discarded(id, INVALID_PRODUCT_NAME@)
    } else if !(count matches Some(amount) && amount.is_positive()) {
        discarded(id, INVALID_COUNT@)
    } else {
        Ok(
            OrderView {
                id: order_number->0,
                date: date->0,
                product_id: product_number->0,
                product_name: title_case(product_name->0),
                quantity: QuantityView { quantity: count->0, unit: Unit::KG },
            },
        )
    }
}

/// What becomes of a record with that identifier and those fields.
pub open spec fn transformed(id: u64, fields: Map<Seq<char>, Seq<char>>) -> Result<
    OrderView,
    DiscardedRecordView,
> {
    decided(
        id,
        order_number(fields),
        date(fields),
        field(fields, PRODUCT_NUMBER@),
        field(fields, PRODUCT_NAME@),
        count(fields),
    )
}

/// A record whose order number is missing, is no number or is zero is discarded for its order
/// number, whatever else it holds.
pub proof fn lemma_order_number_is_checked_first(id: u64, fields: Map<Seq<char>, Seq<char>>)
    requires
        !(order_number(fields) matches Some(number) && number > 0),
    ensures
        transformed(id, fields) == discarded(id, INVALID_ORDER_NUMBER@),
{
}

/// A record that passes the checks on its order number, date, product number and product name
/// and whose count is missing, is no decimal or is not above zero is discarded for its count.
pub proof fn lemma_count_is_checked_last(id: u64, fields: Map<Seq<char>, Seq<char>>)
    requires
        order_number(fields) matches Some(number) && number > 0,
        date(fields) is Some,
        field(fields, PRODUCT_NUMBER@) matches Some(number) && is_product_number(number),
        field(fields, PRODUCT_NAME@) matches Some(name) && is_product_name(name),
        !(count(fields) matches Some(amount) && amount.is_positive()),
    ensures
        transformed(id, fields) == discarded(id, INVALID_COUNT@),
{
}

/// Whatever is discarded bears the identifier of its record, and whatever order is made has
/// an id and an amount above zero, a product id that is not empty and alphanumeric
/// throughout, is measured in kilograms and has for its product name the title case of a
/// name that is not empty and alphabetic throughout.
pub proof fn lemma_what_comes_out(id: u64, fields: Map<Seq<char>, Seq<char>>)
    ensures
        transformed(id, fields) matches Err(discarded) ==> discarded.id == id,
        transformed(id, fields) matches Ok(order) ==> {
            &&& order.id > 0
            &&& Some(order.id) == order_number(fields)
            &&& Some(order.date) == date(fields)
            &&& Some(order.product_id) == field(fields, PRODUCT_NUMBER@)
            &&& is_product_number(order.product_id)
            &&& order.product_name == title_case(fields[PRODUCT_NAME@])
            &&& is_product_name(fields[PRODUCT_NAME@])
            &&& order.quantity.quantity.is_positive()
            &&& Some(order.quantity.quantity) == count(fields)
            &&& order.quantity.unit == Unit::KG
        },
{
}

/// An empty product number fares as a missing one: the record is discarded for its product
/// number, unless an earlier check fails.
pub proof fn lemma_empty_product_number_is_none(id: u64, fields: Map<Seq<char>, Seq<char>>)
    requires
        order_number(fields) matches Some(number) && number > 0,
        date(fields) is Some,
        field(fields, PRODUCT_NUMBER@) matches Some(number) ==> number.len() == 0,
    ensures
        transformed(id, fields) == discarded(id, INVALID_PRODUCT_NUMBER@),
{
}

/// An empty product name fares as a missing one: the record is discarded for its product
/// name, unless an earlier check fails.
pub proof fn lemma_empty_product_name_is_none(id: u64, fields: Map<Seq<char>, Seq<char>>)
    requires
        order_number(fields) matches Some(number) && number > 0,
        date(fields) is Some,
        field(fields, PRODUCT_NUMBER@) matches Some(number) && is_product_number(number),
        field(fields, PRODUCT_NAME@) matches Some(name) ==> name.len() == 0,
    ensures
        transformed(id, fields) == discarded(id, INVALID_PRODUCT_NAME@),
{
}

/// What a value looks like in contracts.
pub open spec fn text_view(value: Option<String>) -> Option<Seq<char>> {
    match value {
        Some(text) => Some(text@),
        None => None,
    }
}

/// What a date looks like in contracts.
pub open spec fn date_view(value: Option<Date>) -> Option<DateView> {
    match value {
        Some(date) => Some(date@),
        None => None,
    }
}

/// What a decimal looks like in contracts.
pub open spec fn decimal_view(value: Option<Decimal>) -> Option<DecimalView> {
    match value {
        Some(number) => Some(number@),
        None => None,
    }
}

/// The date in the year, month and day fields of `record`, if all three are there and make
/// one.
pub fn parse_date<R: Record>(record: &mut R) -> (parsed: Option<Date>)
    ensures
        date_view(parsed) == date(old(record).fields()),
        *final(record) == *old(record),
{
    let year = match record.value_for(YEAR) {
        Some(year) => year,
        None => {
            return None;
        },
    };
    let month = match record.value_for(MONTH) {
        Some(month) => month,
        None => {
            return None;
        },
    };
    let day = match record.value_for(DAY) {
        Some(day) => day,
        None => {
            return None;
        },
    };
    let mut text = year.clone();
    text.append("-");
    text.append(month.as_str());
    text.append("-");
    text.append(day.as_str());
    Date::parse_from_str(text.as_str(), DATE_FORMAT)
}

/// Makes orders of the records of a Trader Joe's export.
pub struct TraderJoesTransformer {}

impl TraderJoesTransformer {
    pub fn new() -> (transformer: TraderJoesTransformer) {
        TraderJoesTransformer {  }
    }

    /// Makes the order of what was read from a record's fields, or discards the record with
    /// the reason of the first check that fails.
    pub fn decide(
        id: u64,
        order_number: Option<u64>,
        date: Option<Date>,
        product_number: Option<String>,
        product_name: Option<String>,
        count: Option<Decimal>,
    ) -> (result: Result<Order, DiscardedRecord>)
        ensures
            crate::transformer::outcome_view(result) == decided(
                id,
                order_number,
                date_view(date),
                text_view(product_number),
                text_view(product_name),
                decimal_view(count),
            ),
            result matches Err(discarded) ==> discarded@.id == id,
            result matches Ok(order) ==> {
                &&& order@.id > 0
                &&& is_product_number(order@.product_id)
                &&& order@.product_name.len() > 0
                &&& order@.quantity.quantity.is_positive()
            },
    {
        let order_number = match order_number {
            Some(number) if number > 0 => number,
            _ => {
                return Err(DiscardedRecord::new(id, INVALID_ORDER_NUMBER.to_owned()));
            },
        };
        let date = match date {
            Some(date) => date,
            None => {
                return Err(DiscardedRecord::new(id, INVALID_DATE.to_owned()));
            },
        };
        let product_number = match product_number {
            Some(number) if !number.as_str().is_empty() && only_alphanumeric(number.as_str()) => number,
            _ => {
                return Err(DiscardedRecord::new(id, INVALID_PRODUCT_NUMBER.to_owned()));
            },
        };
        let product_name = match product_name {
            Some(name) if !name.as_str().is_empty() && only_alphabetic(name.as_str()) => name,
            _ => {
                return Err(DiscardedRecord::new(id, INVALID_PRODUCT_NAME.to_owned()));
            },
        };
        let count = match count {
            Some(amount) if amount.is_positive() => amount,
            _ => {
                return Err(DiscardedRecord::new(id, INVALID_COUNT.to_owned()));
            },
        };
        let order = Order::builder().with_id(order_number).with_date(date).with_product_id(
            product_number,
        ).with_product_name(product_name).with_quantity(
            Quantity::builder().with_quantity(count).build(),
        ).build();
        Ok(order)
    }
}

impl<R: Record> Transformer<R> for TraderJoesTransformer {
    open spec fn outcome(&self, id: u64, fields: Map<Seq<char>, Seq<char>>) -> Result<
        OrderView,
        DiscardedRecordView,
    > {
        transformed(id, fields)
    }

    fn transform(&self, record: R) -> (result: Result<Order, DiscardedRecord>)
        ensures
            result matches Ok(order) ==> {
                &&& order@.id > 0
                &&& is_product_number(order@.product_id)
                &&& order@.product_name.len() > 0
                &&& order@.quantity.quantity.is_positive()
            },
    {
        let mut record = record;
        let order_number = match record.value_for(ORDER_NUMBER) {
            Some(text) => parse_u64(text.as_str()),
            None => None,
        };
        let date = parse_date(&mut record);
        let product_number = match record.value_for(PRODUCT_NUMBER) {
            Some(text) => Some(text.clone()),
            None => None,
        };
        let product_name = match record.value_for(PRODUCT_NAME) {
            Some(text) => Some(text.clone()),
            None => None,
        };
        let count = match record.value_for(COUNT) {
            Some(text) => Decimal::from_str(text.as_str()),
            None => None,
        };
        TraderJoesTransformer::decide(
            record.id(),
            order_number,
            date,
            product_number,
            product_name,
            count,
        )
    }
}

} // verus!
