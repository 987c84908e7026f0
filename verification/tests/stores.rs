use weight_tracker::date::Date;
use weight_tracker::error::JournalError;
use weight_tracker::store::{Record, RecordStore};

fn on(year: u32, month: u32, day: u32) -> Date {
    Date::new(year, month, day).unwrap()
}

fn dates(store: &RecordStore) -> Vec<Date> {
    (0..store.len()).map(|i| store.get(i).unwrap().date).collect()
}

fn sample() -> RecordStore {
    let mut store = RecordStore::new();
    store.append(on(2024, 4, 26), 901).unwrap();
    store.append(on(2024, 4, 27), 899).unwrap();
    store.append(on(2024, 5, 1), 915).unwrap();
    store.append(on(2024, 5, 2), 941).unwrap();
    store.append(on(2024, 5, 3), 879).unwrap();
    store
}

#[test]
fn new_store_is_empty() {
    let store = RecordStore::new();
    assert_eq!(store.len(), 0);
    assert!(store.is_empty());
    assert_eq!(store.get(0), None);
    assert_eq!(store.last_index(), None);
}

#[test]
fn append_keeps_the_store_sorted_after_each_call() {
    let mut store = RecordStore::new();
    let order = [
        on(2024, 5, 2),
        on(2024, 4, 26),
        on(2025, 1, 1),
        on(2024, 5, 1),
        on(2023, 12, 31),
        on(2024, 4, 27),
        on(2024, 5, 3),
    ];
    for (n, date) in order.iter().enumerate() {
        let at = store.append(*date, 900 + n as u32).unwrap();
        assert_eq!(store.get(at).unwrap(), Record { date: *date, tenths: 900 + n as u32 });
        let held = dates(&store);
        assert_eq!(held.len(), n + 1);
        for pair in held.windows(2) {
            assert!(pair[0].is_before(&pair[1]));
        }
    }
    assert_eq!(
        dates(&store),
        vec![
            on(2023, 12, 31),
            on(2024, 4, 26),
            on(2024, 4, 27),
            on(2024, 5, 1),
            on(2024, 5, 2),
            on(2024, 5, 3),
            on(2025, 1, 1),
        ]
    );
}

#[test]
fn append_returns_the_insertion_index() {
    let mut store = sample();
    assert_eq!(store.append(on(2024, 4, 30), 900), Ok(2));
    assert_eq!(store.append(on(2024, 1, 1), 900), Ok(0));
    assert_eq!(store.append(on(2024, 12, 1), 900), Ok(7));
    assert_eq!(store.len(), 8);
}

#[test]
fn append_refuses_a_date_already_present() {
    let mut store = sample();
    for date in dates(&sample()) {
        assert_eq!(store.append(date, 1), Err(JournalError::DuplicateDate));
        assert_eq!(store.len(), 5);
        assert_eq!(dates(&store), dates(&sample()));
    }
    assert_eq!(store.get(0).unwrap().tenths, 901);
    assert_eq!(store.get(4).unwrap().tenths, 879);
}

#[test]
fn edit_replaces_the_weight_only() {
    let mut store = sample();
    assert_eq!(store.edit(2, 1000), Ok(()));
    assert_eq!(store.get(2), Some(Record { date: on(2024, 5, 1), tenths: 1000 }));
    assert_eq!(store.get(1), Some(Record { date: on(2024, 4, 27), tenths: 899 }));
    assert_eq!(store.len(), 5);
}

#[test]
fn edit_refuses_a_position_out_of_range() {
    let mut store = sample();
    assert_eq!(store.edit(5, 1000), Err(JournalError::IndexOutOfRange));
    assert_eq!(store.edit(usize::MAX, 1000), Err(JournalError::IndexOutOfRange));
    assert_eq!(dates(&store), dates(&sample()));
    assert_eq!(RecordStore::new().edit(0, 1), Err(JournalError::IndexOutOfRange));
}

#[test]
fn delete_removes_the_record() {
    let mut store = sample();
    assert_eq!(store.delete(1), Ok(()));
    assert_eq!(
        dates(&store),
        vec![on(2024, 4, 26), on(2024, 5, 1), on(2024, 5, 2), on(2024, 5, 3)]
    );
    assert_eq!(store.delete(3), Ok(()));
    assert_eq!(store.last_index(), Some(2));
}

#[test]
fn delete_refuses_a_position_out_of_range() {
    let mut store = sample();
    assert_eq!(store.delete(5), Err(JournalError::IndexOutOfRange));
    assert_eq!(store.len(), 5);
    assert_eq!(RecordStore::new().delete(0), Err(JournalError::IndexOutOfRange));
}

#[test]
fn export_writes_header_and_rows() {
    assert_eq!(RecordStore::new().export(), "Date, Weight\n");
    assert_eq!(
        sample().export(),
        "Date, Weight\n26-04-2024, 90.1\n27-04-2024, 89.9\n01-05-2024, 91.5\n02-05-2024, 94.1\n03-05-2024, 87.9\n"
    );
    let mut store = RecordStore::new();
    store.append(on(2025, 1, 1), 5).unwrap();
    store.append(on(2025, 1, 2), 1000).unwrap();
    store.append(on(2025, 1, 3), 0).unwrap();
    assert_eq!(store.export(), "Date, Weight\n01-01-2025, 0.5\n02-01-2025, 100.0\n03-01-2025, 0.0\n");
}

#[test]
fn import_reads_the_persisted_format() {
    let mut store = RecordStore::new();
    assert_eq!(store.import("Date, Weight\n23-04-2025, 90.1\n24-04-2025, 89.9\n"), Ok(()));
    assert_eq!(store.len(), 2);
    assert_eq!(store.get(0), Some(Record { date: on(2025, 4, 23), tenths: 901 }));
    assert_eq!(store.get(1), Some(Record { date: on(2025, 4, 24), tenths: 899 }));
}

#[test]
fn import_replaces_what_the_store_held() {
    let mut store = sample();
    assert_eq!(store.import("Date, Weight\n23-04-2025, 90.1\n"), Ok(()));
    assert_eq!(dates(&store), vec![on(2025, 4, 23)]);
    assert_eq!(store.import("Date, Weight\n"), Ok(()));
    assert!(store.is_empty());
}

#[test]
fn import_of_export_gives_the_same_records() {
    let first = sample();
    let mut again = RecordStore::new();
    assert_eq!(again.import(&first.export()), Ok(()));
    assert_eq!(again.len(), first.len());
    for i in 0..first.len() {
        assert_eq!(again.get(i), first.get(i));
    }
    assert_eq!(again.export(), first.export());
}

#[test]
fn import_refuses_a_malformed_header() {
    for text in [
        "Date\n23-04-2025, 90.1\n",
        "Date, Weight, Note\n23-04-2025, 90.1\n",
        "Day, Weight\n23-04-2025, 90.1\n",
        "Date, Mass\n23-04-2025, 90.1\n",
        "Weight, Date\n23-04-2025, 90.1\n",
        "23-04-2025, 90.1\n",
        "date, weight\n",
    ] {
        let mut store = sample();
        assert_eq!(store.import(text), Err(JournalError::InvalidHeader));
        assert_eq!(dates(&store), dates(&sample()));
    }
}

#[test]
fn import_skips_rows_that_do_not_read() {
    let mut store = RecordStore::new();
    let text = "Date,Weight\r\n23-04-2025, 90.1\r\n24-04-2025, heavy\r\n\r\nnot a row\r\n31-04-2025, 90.0\r\n  25-04-2025 ,  88  \r\n26-04-2025, 87.5, note\r\n27-04-2025, 87.25";
    assert_eq!(store.import(text), Ok(()));
    assert_eq!(store.len(), 3);
    assert_eq!(store.get(0), Some(Record { date: on(2025, 4, 23), tenths: 901 }));
    assert_eq!(store.get(1), Some(Record { date: on(2025, 4, 25), tenths: 880 }));
    assert_eq!(store.get(2), Some(Record { date: on(2025, 4, 27), tenths: 873 }));
}

#[test]
fn import_keeps_the_order_of_the_rows() {
    let mut store = RecordStore::new();
    assert_eq!(store.import("Date, Weight\n24-04-2025, 89.9\n23-04-2025, 90.1\n"), Ok(()));
    assert_eq!(dates(&store), vec![on(2025, 4, 24), on(2025, 4, 23)]);
}

#[test]
fn import_of_an_empty_text_changes_nothing() {
    let mut store = sample();
    assert_eq!(store.import(""), Ok(()));
    assert_eq!(store.len(), 5);
    assert_eq!(store.import("\n\r\n\n"), Ok(()));
    assert_eq!(dates(&store), dates(&sample()));
}

#[test]
fn error_messages() {
    assert_eq!(JournalError::InvalidDate.message(), "Invalid date format!");
    assert_eq!(JournalError::InvalidWeight.message(), "Invalid weight format!");
    assert_eq!(JournalError::DuplicateDate.message(), "Cannot add element. Did you mean to edit?");
    assert_eq!(JournalError::IndexOutOfRange.message(), "No row is selected.");
    assert_eq!(JournalError::InvalidHeader.message(), "Invalid Header");
}
