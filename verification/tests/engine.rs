use poor_man_etl::engine::Engine;
use poor_man_etl::extractor::Extractor;
use poor_man_etl::loader::{DiscardedOrder, Loader};
use poor_man_etl::order::Order;
use poor_man_etl::record::MapRecord;
use poor_man_etl::reporter::Reporter;
use poor_man_etl::traderjoes::transformer::TraderJoesTransformer;
use poor_man_etl::transformer::DiscardedRecord;

struct ListExtractor {
    records: Vec<MapRecord>,
}

impl ListExtractor {
    fn of(mut records: Vec<MapRecord>) -> ListExtractor {
        records.reverse();
        ListExtractor { records }
    }
}

impl Iterator for ListExtractor {
    type Item = MapRecord;

    fn next(&mut self) -> Option<MapRecord> {
        self.records.pop()
    }
}

impl Extractor<MapRecord> for ListExtractor {}

struct ListLoader {
    loaded: Vec<Order>,
    refuse: bool,
}

impl Loader for ListLoader {
    fn load(&mut self, order: Order) -> Result<(), DiscardedOrder> {
        if self.refuse {
            Err(DiscardedOrder::new(order, "sink is full".to_string()))
        } else {
            self.loaded.push(order);
            Ok(())
        }
    }
}

struct PanickingReporter {}

impl Reporter for PanickingReporter {
    fn report_record(&mut self, _discarded_record: DiscardedRecord) {
        panic!("Record discarded - should never happen!");
    }

    fn report_order(&mut self, _discarded_order: DiscardedOrder) {
        panic!("Order discarded - should never happen!");
    }
}

struct ListReporter {
    records: Vec<DiscardedRecord>,
    orders: Vec<DiscardedOrder>,
}

impl Reporter for ListReporter {
    fn report_record(&mut self, discarded_record: DiscardedRecord) {
        self.records.push(discarded_record);
    }

    fn report_order(&mut self, discarded_order: DiscardedOrder) {
        self.orders.push(discarded_order);
    }
}

fn row(id: u64, cells: [&str; 7]) -> MapRecord {
    let names = ["Order Number", "Year", "Month", "Day", "Product Number", "Product Name", "Count"];
    let mut entries = Vec::new();
    for i in 0..7 {
        entries.push((names[i].to_string(), cells[i].to_string()));
    }
    MapRecord::new(id, entries)
}

#[test]
fn engine_loads_two_valid_records_and_reports_nothing() {
    let mut extractor = ListExtractor::of(vec![
        row(1, ["13", "2019", "8", "27", "123456789", "Nuts", "12"]),
        row(2, ["16", "2019", "8", "28", "987654321", "Jam", "1"]),
    ]);
    let transformer = TraderJoesTransformer::new();
    let mut reporter = PanickingReporter {};
    let mut loader = ListLoader { loaded: Vec::new(), refuse: false };

    Engine::etl(&mut extractor, &transformer, &mut reporter, &mut loader);

    assert_eq!(loader.loaded.len(), 2);
    assert_eq!(loader.loaded[0].id(), 13);
    assert_eq!(loader.loaded[0].product_name(), "Nuts");
    assert_eq!(loader.loaded[1].id(), 16);
    assert_eq!(loader.loaded[1].product_name(), "Jam");
    assert!(extractor.next().is_none());
}

#[test]
fn engine_reports_the_bad_record_and_loads_the_good_one() {
    let bad = ["0", "2019", "8", "27", "123456789", "Nuts", "12"];
    let good = ["16", "2019", "8", "28", "987654321", "Jam", "1"];
    for bad_first in [true, false] {
        let records = if bad_first {
            vec![row(1, bad), row(2, good)]
        } else {
            vec![row(1, good), row(2, bad)]
        };
        let mut extractor = ListExtractor::of(records);
        let transformer = TraderJoesTransformer::new();
        let mut reporter = ListReporter { records: Vec::new(), orders: Vec::new() };
        let mut loader = ListLoader { loaded: Vec::new(), refuse: false };

        Engine::etl(&mut extractor, &transformer, &mut reporter, &mut loader);

        assert_eq!(reporter.records.len(), 1);
        assert_eq!(reporter.orders.len(), 0);
        assert_eq!(reporter.records[0].id(), if bad_first { 1 } else { 2 });
        assert_eq!(reporter.records[0].error_message(), "Invalid order number");
        assert_eq!(loader.loaded.len(), 1);
        assert_eq!(loader.loaded[0].id(), 16);
    }
}

#[test]
fn engine_reports_an_order_that_the_loader_gives_back() {
    let mut extractor = ListExtractor::of(vec![
        row(1, ["13", "2019", "8", "27", "123456789", "Nuts", "12"]),
        row(2, ["x", "2019", "8", "28", "987654321", "Jam", "1"]),
    ]);
    let transformer = TraderJoesTransformer::new();
    let mut reporter = ListReporter { records: Vec::new(), orders: Vec::new() };
    let mut loader = ListLoader { loaded: Vec::new(), refuse: true };

    Engine::etl(&mut extractor, &transformer, &mut reporter, &mut loader);

    assert_eq!(loader.loaded.len(), 0);
    assert_eq!(reporter.orders.len(), 1);
    assert_eq!(reporter.orders[0].order().id(), 13);
    assert_eq!(reporter.orders[0].error_message(), "sink is full");
    assert_eq!(reporter.records.len(), 1);
    assert_eq!(reporter.records[0].id(), 2);
}
