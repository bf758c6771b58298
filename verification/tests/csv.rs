use poor_man_etl::csv::extractor::Rows;
use poor_man_etl::csv::loader::{headers, row_of, settle};
use poor_man_etl::date::Date;
use poor_man_etl::decimal::Decimal;
use poor_man_etl::engine::Engine;
use poor_man_etl::extractor::{Extractor, ExtractorError};
use poor_man_etl::loader::{DiscardedOrder, Loader};
use poor_man_etl::order::{Order, Quantity};
use poor_man_etl::record::{MapRecord, Record};
use poor_man_etl::reporter::Reporter;
use poor_man_etl::traderjoes::transformer::TraderJoesTransformer;
use poor_man_etl::transformer::DiscardedRecord;

struct CsvExtractor<'a> {
    reader: csv::Reader<&'a [u8]>,
    rows: Rows,
}

impl<'a> CsvExtractor<'a> {
    fn from(text: &'a str) -> Result<CsvExtractor<'a>, ExtractorError> {
        let mut reader = csv::Reader::from_reader(text.as_bytes());
        let headers = reader.headers().ok().map(|names| names.iter().map(|name| name.to_owned()).collect());
        Ok(CsvExtractor { rows: Rows::new(headers)?, reader })
    }
}

impl<'a> Extractor<MapRecord> for CsvExtractor<'a> {}

impl<'a> Iterator for CsvExtractor<'a> {
    type Item = MapRecord;

    fn next(&mut self) -> Option<MapRecord> {
        let row = self.reader.records().next()?;
        let cells: Option<Vec<String>> = row.ok().map(|cells| cells.iter().map(|cell| cell.to_owned()).collect());
        Some(self.rows.record_of(cells))
    }
}

struct CsvLoader {
    writer: csv::Writer<Vec<u8>>,
}

impl CsvLoader {
    fn to(sink: Vec<u8>) -> CsvLoader {
        let mut writer = csv::Writer::from_writer(sink);
        writer.write_record(headers()).unwrap();
        CsvLoader { writer }
    }

    fn content(self) -> String {
        String::from_utf8(self.writer.into_inner().unwrap()).unwrap()
    }
}

impl Loader for CsvLoader {
    fn load(&mut self, order: Order) -> Result<(), DiscardedOrder> {
        let error = match self.writer.write_record(row_of(&order)) {
            Err(error) => Some(error.to_string()),
            Ok(()) => self.writer.flush().err().map(|error| error.to_string()),
        };
        settle(order, error)
    }
}

struct PanickingReporter {}

impl Reporter for PanickingReporter {
    fn report_record(&mut self, _discarded_record: DiscardedRecord) {
        panic!("Record discarded - should never happen!");
    }

    fn report_order(&mut self, _discarded_order: DiscardedOrder) {
        panic!("Order discarded - should never happen!");
    }
}

struct CountingReporter {
    reasons: Vec<(u64, String)>,
}

impl Reporter for CountingReporter {
    fn report_record(&mut self, discarded_record: DiscardedRecord) {
        self.reasons.push((discarded_record.id(), discarded_record.error_message().to_string()));
    }

    fn report_order(&mut self, _discarded_order: DiscardedOrder) {
        panic!("Order discarded - should never happen!");
    }
}

#[test]
fn extractor_should_extract() {
    let source = "Column,Another Column\n\
                  Value 1,Another Value 1\n\
                  Value 2,Another Value 2";

    let mut extracted_records: Vec<MapRecord> = CsvExtractor::from(source).unwrap().into_iter().collect();

    let first_expected_record = MapRecord::new(
        1,
        vec![
            ("Column".to_string(), "Value 1".to_string()),
            ("Another Column".to_string(), "Another Value 1".to_string()),
        ],
    );
    let second_expected_record = MapRecord::new(
        2,
        vec![
            ("Column".to_string(), "Value 2".to_string()),
            ("Another Column".to_string(), "Another Value 2".to_string()),
        ],
    );

    assert_eq!(extracted_records.len(), 2);
    assert_eq!(extracted_records.remove(0), first_expected_record);
    assert_eq!(extracted_records.remove(0), second_expected_record);
}

#[test]
fn loader_should_extract() {
    let order = Order::builder()
        .with_id(12)
        .with_date(Date::from_ymd(2019, 8, 27))
        .with_product_id("123456789".to_string())
        .with_product_name("Nuts".to_string())
        .with_quantity(Quantity::builder().with_quantity(Decimal::new(1220, 2)).build())
        .build();

    let mut loader = CsvLoader::to(Vec::new());
    loader.load(order).unwrap();

    assert_eq!(
        loader.content(),
        "Order Id,Date Time,Product Id,Product Name,Quantity,Unit\n\
         12,2019-08-27,123456789,Nuts,12.20,KG\n"
    );
}

#[test]
fn should_extract_from_traderjoes_csv_and_load_to_csv() {
    let source = "Order Number,Year,Month,Day,Product Number,Product Name,Count\n\
                  13,2019,8,27,123456789,Nuts,12\n\
                  16,2019,8,28,987654321,Jam,1";
    let mut extractor = CsvExtractor::from(source).unwrap();
    let transformer = TraderJoesTransformer::new();
    let mut reporter = PanickingReporter {};
    let mut loader = CsvLoader::to(Vec::new());

    Engine::etl(&mut extractor, &transformer, &mut reporter, &mut loader);

    assert_eq!(
        loader.content(),
        "Order Id,Date Time,Product Id,Product Name,Quantity,Unit\n\
         13,2019-08-27,123456789,Nuts,12,KG\n\
         16,2019-08-28,987654321,Jam,1,KG\n"
    );
}

#[test]
fn a_row_that_cannot_be_read_still_takes_a_number() {
    let source = "Order Number,Year,Month,Day,Product Number,Product Name,Count\n\
                  13,2019,8,27,123456789,Nuts,12\n\
                  too,short\n\
                  16,2019,8,28,987654321,Jam,1";
    let mut extractor = CsvExtractor::from(source).unwrap();
    let transformer = TraderJoesTransformer::new();
    let mut reporter = CountingReporter { reasons: Vec::new() };
    let mut loader = CsvLoader::to(Vec::new());

    Engine::etl(&mut extractor, &transformer, &mut reporter, &mut loader);

    assert_eq!(reporter.reasons, vec![(2, "Invalid order number".to_string())]);
    assert_eq!(
        loader.content(),
        "Order Id,Date Time,Product Id,Product Name,Quantity,Unit\n\
         13,2019-08-27,123456789,Nuts,12,KG\n\
         16,2019-08-28,987654321,Jam,1,KG\n"
    );
}

#[test]
fn rows_number_records_from_one() {
    let mut rows = Rows::new(Some(vec!["A".to_string(), "B".to_string()])).unwrap();
    assert_eq!(rows.position(), 0);
    assert_eq!(rows.headers(), &vec!["A".to_string(), "B".to_string()]);

    let first = rows.record_of(Some(vec!["1".to_string(), "2".to_string()]));
    assert_eq!(first.id(), 1);
    assert_eq!(first.value_for("A"), Some(&"1".to_string()));
    assert_eq!(first.value_for("B"), Some(&"2".to_string()));

    let second = rows.record_of(None);
    assert_eq!(second.id(), 2);
    assert_eq!(second.value_for("A"), None);
    assert_eq!(second, MapRecord::new(2, Vec::new()));

    let third = rows.record_of(Some(vec!["only".to_string()]));
    assert_eq!(third.id(), 3);
    assert_eq!(third.value_for("A"), Some(&"only".to_string()));
    assert_eq!(third.value_for("B"), None);
    assert_eq!(rows.position(), 3);
}

#[test]
fn rows_need_a_header_row() {
    let error = Rows::new(None).err().unwrap();
    assert_eq!(error.to_string(), "missing headers");
    assert_eq!(error.description(), "missing headers");
    assert_eq!(ExtractorError::new("no file").to_string(), "no file");
}

#[test]
fn the_table_has_six_columns() {
    assert_eq!(headers(), vec!["Order Id", "Date Time", "Product Id", "Product Name", "Quantity", "Unit"]);
}

#[test]
fn an_order_makes_a_row_of_six_cells() {
    let order = Order::builder()
        .with_id(18446744073709551615)
        .with_date(Date::from_ymd(2020, 2, 29))
        .with_product_id("A1".to_string())
        .with_product_name("trailMix".to_string())
        .with_quantity(Quantity::builder().with_quantity(Decimal::new(5, 3)).build())
        .build();
    assert_eq!(row_of(&order), vec!["18446744073709551615", "2020-02-29", "A1", "Trail Mix", "0.005", "KG"]);
}

#[test]
fn settle_gives_the_order_back_with_the_message() {
    let order = || {
        Order::builder()
            .with_id(12)
            .with_date(Date::from_ymd(2019, 8, 27))
            .with_product_id("123456789".to_string())
            .with_product_name("Nuts".to_string())
            .with_quantity(Quantity::builder().with_quantity(Decimal::new(1220, 2)).build())
            .build()
    };
    assert!(settle(order(), None).is_ok());
    let discarded = settle(order(), Some("disk full".to_string())).err().unwrap();
    assert_eq!(*discarded.order(), order());
    assert_eq!(discarded.error_message(), "disk full");
    let discarded = DiscardedOrder::new(order(), "no".to_string());
    assert_eq!(discarded.order().id(), 12);
    assert_eq!(discarded.error_message(), "no");
}
