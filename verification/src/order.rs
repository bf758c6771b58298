use crate::date::{Date, DateView};
use crate::decimal::{Decimal, DecimalView};
use vstd::prelude::*;

verus! {

/// The unit a quantity is measured in.
#[derive(Debug, PartialEq, Eq, Structural, Clone, Copy)]
pub enum Unit {
    KG,
}

impl Unit {
    /// The unit's name as it is printed.
    pub open spec fn spec_name(self) -> Seq<char> {
        match self {
            Unit::KG => "KG"@,
        }
    }

    /// The unit's name as it is printed.
    pub fn name(&self) -> (name: &'static str)
        ensures
            name@ == self.spec_name(),
    {
        match self {
            Unit::KG => "KG",
        }
    }
}

/// What a quantity holds.
pub struct QuantityView {
    pub quantity: DecimalView,
    pub unit: Unit,
}

/// An amount above zero and the unit it is measured in.
#[derive(Debug, PartialEq, Eq)]
pub struct Quantity {
    quantity: Decimal,
    unit: Unit,
}

impl View for Quantity {
    type V = QuantityView;

    closed spec fn view(&self) -> QuantityView {
        QuantityView { quantity: self.quantity@, unit: self.unit }
    }
}

/// What a quantity builder has been given so far.
pub struct QuantityBuilderView {
    pub quantity: Option<DecimalView>,
    pub unit: Option<Unit>,
}

/// Collects the parts of a quantity.
pub struct QuantityBuilder {
    quantity: Option<Decimal>,
    unit: Option<Unit>,
}

impl View for QuantityBuilder {
    type V = QuantityBuilderView;

    closed spec fn view(&self) -> QuantityBuilderView {
        QuantityBuilderView {
            quantity: match self.quantity {
                Some(quantity) => Some(quantity@),
                None => None,
            },
            unit: self.unit,
        }
    }
}

impl Quantity {
    #[verifier::type_invariant]
    spec fn is_positive(self) -> bool {
        self.quantity@.is_positive()
    }

    /// A builder that has no amount yet and measures in kilograms.
    pub fn builder() -> (builder: QuantityBuilder)
        ensures
            builder@ == (QuantityBuilderView { quantity: None, unit: Some(Unit::KG) }),
    {
        QuantityBuilder { quantity: None, unit: Some(Unit::KG) }
    }

    pub fn quantity(&self) -> (quantity: &Decimal)
        ensures
            quantity@ == self@.quantity,
            quantity@.is_positive(),
    {
        proof {
            use_type_invariant(self);
        }
        &self.quantity
    }

    pub fn unit(&self) -> (unit: &Unit)
        ensures
            *unit == self@.unit,
    {
        &self.unit
    }
}

impl QuantityBuilder {
    #[verifier::type_invariant]
    spec fn holds_positive(self) -> bool {
        self.quantity matches Some(quantity) ==> quantity@.is_positive()
    }

    /// Sets the amount, which must be above zero.
    pub fn with_quantity(self, quantity: Decimal) -> (builder: QuantityBuilder)
        requires
            quantity@.is_positive(),
        ensures
            builder@ == (QuantityBuilderView { quantity: Some(quantity@), ..self@ }),
    {
        let mut builder = self;
        proof {
            use_type_invariant(&builder);
        }
        builder.quantity = Some(quantity);
        builder
    }

    pub fn with_unit(self, unit: Unit) -> (builder: QuantityBuilder)
        ensures
            builder@ == (QuantityBuilderView { unit: Some(unit), ..self@ }),
    {
        let mut builder = self;
        proof {
            use_type_invariant(&builder);
        }
        builder.unit = Some(unit);
        builder
    }

    /// The quantity of the amount and unit given. Both must have been given.
    pub fn build(self) -> (quantity: Quantity)
        requires
            self@.quantity is Some,
            self@.unit is Some,
        ensures
            quantity@ == (QuantityView { quantity: self@.quantity->0, unit: self@.unit->0 }),
            quantity@.quantity.is_positive(),
    {
        proof {
            use_type_invariant(&self);
        }
        Quantity { quantity: self.quantity.unwrap(), unit: self.unit.unwrap() }
    }
}

/// What `inflections::case::to_title_case` makes of `name`.
pub uninterp spec fn title_case(name: Seq<char>) -> Seq<char>;

/// Calls `inflections::case::to_title_case`: separators become spaces, words in camel case are
/// parted, and each word is written with a capital first letter and the rest in lower case.
/// The outcome depends on the text alone and is given the name `title_case`. Every character
/// of `name` gives at least one character of the outcome, which therefore is no shorter.
#[verifier::external_body]
fn to_title_case(name: &str) -> (titled: String)
    ensures
        titled@ == title_case(name@),
        titled@.len() >= name@.len(),
{
    inflections::case::to_title_case(name)
}

/// What an order holds.
pub struct OrderView {
    pub id: u64,
    pub date: DateView,
    pub product_id: Seq<char>,
    pub product_name: Seq<char>,
    pub quantity: QuantityView,
}

/// An order that has passed every check: its id and its amount are above zero, and its
/// product name is in title case.
#[derive(Debug, PartialEq, Eq)]
pub struct Order {
    id: u64,
    date: Date,
    product_id: String,
    product_name: String,
    quantity: Quantity,
}

impl View for Order {
    type V = OrderView;

    closed spec fn view(&self) -> OrderView {
        OrderView {
            id: self.id,
            date: self.date@,
            product_id: self.product_id@,
            product_name: self.product_name@,
            quantity: self.quantity@,
        }
    }
}

/// What an order builder has been given so far.
pub struct OrderBuilderView {
    pub id: Option<u64>,
    pub date: Option<DateView>,
    pub product_id: Option<Seq<char>>,
    pub product_name: Option<Seq<char>>,
    pub quantity: Option<QuantityView>,
}

impl OrderBuilderView {
    /// Whether every part of an order has been given.
    pub open spec fn is_complete(self) -> bool {
        &&& self.id is Some
        &&& self.date is Some
        &&& self.product_id is Some
        &&& self.product_name is Some
        &&& self.quantity is Some
    }

    /// The order that the parts make: the product name goes into title case, the rest stays
    /// as given.
    pub open spec fn order(self) -> OrderView {
        OrderView {
            id: self.id->0,
            date: self.date->0,
            product_id: self.product_id->0,
            product_name: title_case(self.product_name->0),
            quantity: self.quantity->0,
        }
    }
}

/// Collects the parts of an order.
pub struct OrderBuilder {
    id: Option<u64>,
    date: Option<Date>,
    product_id: Option<String>,
    product_name: Option<String>,
    quantity: Option<Quantity>,
}

impl View for OrderBuilder {
    type V = OrderBuilderView;

    closed spec fn view(&self) -> OrderBuilderView {
        OrderBuilderView {
            id: self.id,
            date: match self.date {
                Some(date) => Some(date@),
                None => None,
            },
            product_id: match self.product_id {
                Some(product_id) => Some(product_id@),
                None => None,
            },
            product_name: match self.product_name {
                Some(product_name) => Some(product_name@),
                None => None,
            },
            quantity: match self.quantity {
                Some(quantity) => Some(quantity@),
                None => None,
            },
        }
    }
}

impl Order {
    #[verifier::type_invariant]
    spec fn has_positive_id(self) -> bool {
        self.id > 0
    }

    /// A builder that has been given nothing yet.
    pub fn builder() -> (builder: OrderBuilder)
        ensures
            builder@ == (OrderBuilderView {
                id: None,
                date: None,
                product_id: None,
                product_name: None,
                quantity: None,
            }),
    {
        OrderBuilder { id: None, date: None, product_id: None, product_name: None, quantity: None }
    }

    pub fn id(&self) -> (id: u64)
        ensures
            id == self@.id,
            id > 0,
    {
        proof {
            use_type_invariant(self);
        }
        self.id
    }

    pub fn date(&self) -> (date: &Date)
        ensures
            date@ == self@.date,
    {
        &self.date
    }

    pub fn product_id(&self) -> (product_id: &str)
        ensures
            product_id@ == self@.product_id,
    {
        self.product_id.as_str()
    }

    pub fn product_name(&self) -> (product_name: &str)
        ensures
            product_name@ == self@.product_name,
    {
        self.product_name.as_str()
    }

    pub fn quantity(&self) -> (quantity: &Quantity)
        ensures
            quantity@ == self@.quantity,
            quantity@.quantity.is_positive(),
    {
        let quantity = &self.quantity;
        proof {
            use_type_invariant(quantity);
        }
        quantity
    }
}

impl OrderBuilder {
    #[verifier::type_invariant]
    spec fn holds_positive_id(self) -> bool {
        self.id matches Some(id) ==> id > 0
    }

    /// Sets the id, which must be above zero.
    pub fn with_id(self, id: u64) -> (builder: OrderBuilder)
        requires
            id > 0,
        ensures
            builder@ == (OrderBuilderView { id: Some(id), ..self@ }),
    {
        let mut builder = self;
        proof {
            use_type_invariant(&builder);
        }
        builder.id = Some(id);
        builder
    }

    pub fn with_date(self, date: Date) -> (builder: OrderBuilder)
        ensures
            builder@ == (OrderBuilderView { date: Some(date@), ..self@ }),
    {
        let mut builder = self;
        proof {
            use_type_invariant(&builder);
        }
        builder.date = Some(date);
        builder
    }

    pub fn with_product_id(self, product_id: String) -> (builder: OrderBuilder)
        ensures
            builder@ == (OrderBuilderView { product_id: Some(product_id@), ..self@ }),
    {
        let mut builder = self;
        proof {
            use_type_invariant(&builder);
        }
        builder.product_id = Some(product_id);
        builder
    }

    pub fn with_product_name(self, product_name: String) -> (builder: OrderBuilder)
        ensures
            builder@ == (OrderBuilderView { product_name: Some(product_name@), ..self@ }),
    {
        let mut builder = self;
        proof {
            use_type_invariant(&builder);
        }
        builder.product_name = Some(product_name);
        builder
    }

    pub fn with_quantity(self, quantity: Quantity) -> (builder: OrderBuilder)
        ensures
            builder@ == (OrderBuilderView { quantity: Some(quantity@), ..self@ }),
    {
        let mut builder = self;
        proof {
            use_type_invariant(&builder);
        }
        builder.quantity = Some(quantity);
        builder
    }

    /// The order of the parts given. Every part must have been given.
    pub fn build(self) -> (order: Order)
        requires
            self@.is_complete(),
        ensures
            order@ == self@.order(),
            order@.id > 0,
            order@.quantity.quantity.is_positive(),
            order@.product_name.len() >= self@.product_name->0.len(),
    {
        proof {
            use_type_invariant(&self);
        }
        let quantity = self.quantity.unwrap();
        proof {
            use_type_invariant(&quantity);
        }
        Order {
            id: self.id.unwrap(),
            date: self.date.unwrap(),
            product_id: self.product_id.unwrap(),
            product_name: to_title_case(self.product_name.unwrap().as_str()),
            quantity,
        }
    }
}

} // verus!
