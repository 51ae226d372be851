use fiscal_log::assemble::{parse_file, Diagnostic};
use fiscal_log::models::{Document, Line, LineType, Timestamp};
use fiscal_log::stats::{report, Summary};

fn open_line(ts: &str) -> String {
    format!("{ts} T:1A2B INFO [FiscalPrinter] libfptr_open() [0x7F3C]")
}

fn close_line(ts: &str) -> String {
    format!("{ts} T:1A2B INFO [FiscalPrinter] libfptr_close() [0x7F3C]")
}

fn failure_line(ts: &str) -> String {
    format!("{ts} T:1A2B ERROR [FiscalPrinter] Объекту 0x7F3C присвоен код ошибки 2 [Нет связи]")
}

fn freeze_line(ts: &str) -> String {
    format!("{ts} T:1A2B WARN [Transport] Возможен обрыв связи. Переподключаемся и проверяем результат задачи...")
}

fn run(lines: Vec<String>) -> (Vec<Document>, Vec<Diagnostic>) {
    let parsed = parse_file(&lines).unwrap();
    (parsed.documents, parsed.diagnostics)
}

#[test]
fn round_trip_single_document() {
    let (docs, diags) = run(vec![
        open_line("2024.09.01 09:00:00.000"),
        "unrelated noise line".to_string(),
        close_line("2024.09.01 09:00:12.000"),
    ]);
    assert_eq!(docs.len(), 1);
    assert_eq!(diags.len(), 0);
    assert_eq!(docs[0].open.index, 1);
    assert_eq!(docs[0].open.line_type, LineType::Open);
    let close = docs[0].close.as_ref().unwrap();
    assert_eq!(close.index, 3);
    assert_eq!(close.line_type, LineType::Close(true));
    assert!(docs[0].freeze.is_none());
    assert_eq!(docs[0].get_printing_time(), Some(12_000));
}

#[test]
fn printing_time_present_iff_closed() {
    let t0 = Timestamp { year: 2024, month: 9, day: 1, hour: 9, minute: 0, second: 0, millisecond: 0 };
    let t1 = Timestamp { year: 2024, month: 9, day: 1, hour: 9, minute: 0, second: 3, millisecond: 250 };
    let open = Line { index: 1, line_type: LineType::Open, dt: t0 };
    let close = Line { index: 2, line_type: LineType::Close(true), dt: t1 };
    let unclosed = Document { open, close: None, freeze: None };
    assert_eq!(unclosed.get_printing_time(), None);
    let closed = Document { open, close: Some(close), freeze: None };
    assert_eq!(closed.get_printing_time(), Some(3_250));
}

#[test]
fn printing_time_crosses_midnight_and_leap_day() {
    let (docs, _) = run(vec![
        open_line("2024.02.28 23:59:59.000"),
        close_line("2024.02.29 00:00:01.000"),
    ]);
    assert_eq!(docs[0].get_printing_time(), Some(2_000));
    // In a non-leap year February 28 is followed directly by March 1.
    let (docs, _) = run(vec![
        open_line("2023.02.28 23:59:59.000"),
        close_line("2023.03.01 00:00:01.000"),
    ]);
    assert_eq!(docs[0].get_printing_time(), Some(2_000));
    // In a leap year the same wall-clock pair is one day further apart.
    let (docs, _) = run(vec![
        open_line("2024.02.28 23:59:59.000"),
        close_line("2024.03.01 00:00:01.000"),
    ]);
    assert_eq!(docs[0].get_printing_time(), Some(86_400_000 + 2_000));
}

#[test]
fn double_open_flushes_first_document() {
    let (docs, diags) = run(vec![
        open_line("2024.09.01 09:00:00.000"),
        open_line("2024.09.01 09:00:02.000"),
        close_line("2024.09.01 09:00:05.000"),
    ]);
    assert_eq!(docs.len(), 2);
    assert!(docs[0].close.is_none());
    assert_eq!(docs[0].get_printing_time(), None);
    assert_eq!(docs[0].open.index, 1);
    assert!(docs[1].close.is_some());
    assert_eq!(docs[1].open.index, 2);
    assert_eq!(docs[1].get_printing_time(), Some(3_000));
    assert_eq!(diags, vec![Diagnostic::UnclosedDocument { position: 2 }]);
}

#[test]
fn close_without_open_is_dropped_with_diagnostic() {
    let (docs, diags) = run(vec![close_line("2024.09.01 09:00:05.000")]);
    assert_eq!(docs.len(), 0);
    assert_eq!(diags, vec![Diagnostic::CloseWithoutOpen { position: 1 }]);
}

#[test]
fn freeze_without_open_is_dropped_with_diagnostic() {
    let (docs, diags) = run(vec![freeze_line("2024.09.01 09:00:05.000")]);
    assert_eq!(docs.len(), 0);
    assert_eq!(diags, vec![Diagnostic::FreezeWithoutOpen { position: 1 }]);
}

#[test]
fn pending_document_at_end_of_input_is_dropped() {
    let (docs, diags) = run(vec![
        open_line("2024.09.01 09:00:00.000"),
        freeze_line("2024.09.01 09:00:01.000"),
    ]);
    assert_eq!(docs.len(), 0);
    assert_eq!(diags.len(), 0);
}

#[test]
fn freezes_are_attached_in_file_order() {
    let (docs, _) = run(vec![
        open_line("2024.09.01 09:00:00.000"),
        freeze_line("2024.09.01 09:00:01.000"),
        freeze_line("2024.09.01 09:00:02.000"),
        close_line("2024.09.01 09:00:03.000"),
    ]);
    assert_eq!(docs.len(), 1);
    let freezes = docs[0].freeze.as_ref().unwrap();
    assert_eq!(freezes.len(), 2);
    assert_eq!(freezes[0].index, 2);
    assert_eq!(freezes[1].index, 3);
    assert_eq!(freezes[0].line_type, LineType::Freeze);
}

#[test]
fn bad_timestamp_aborts_the_whole_parse() {
    let err = match parse_file(&vec![
        open_line("2024.09.01 09:00:00.000"),
        open_line("2024.13.01 09:00:00.000"),
    ]) {
        Err(e) => e,
        Ok(_) => panic!("a bad timestamp on a recognized line must be fatal"),
    };
    assert_eq!(err.position, 2);
}

#[test]
fn example_with_freeze_summary() {
    let (docs, _) = run(vec![
        open_line("2024.09.01 09:00:00.000"),
        freeze_line("2024.09.01 09:00:05.000"),
        close_line("2024.09.01 09:00:12.000"),
    ]);
    let s = report(&docs);
    let expected = Summary {
        total_documents: 1,
        failed_connections: 0,
        average_printing_time: 12,
        over_threshold_count: 1,
        documents_with_freezes_count: 1,
        longest_document: Some(0),
    };
    assert_eq!(s, expected);
}

#[test]
fn example_with_failure_summary() {
    let (docs, _) = run(vec![
        open_line("2024.09.01 09:00:00.000"),
        failure_line("2024.09.01 09:00:01.000"),
    ]);
    let s = report(&docs);
    let expected = Summary {
        total_documents: 1,
        failed_connections: 1,
        average_printing_time: 1,
        over_threshold_count: 0,
        documents_with_freezes_count: 0,
        longest_document: Some(0),
    };
    assert_eq!(s, expected);
}

#[test]
fn threshold_is_strictly_greater_than_ten_seconds() {
    let (docs, _) = run(vec![
        open_line("2024.09.01 09:00:00.000"),
        close_line("2024.09.01 09:00:10.000"),
    ]);
    assert_eq!(report(&docs).over_threshold_count, 0);
    let (docs, _) = run(vec![
        open_line("2024.09.01 09:00:00.000"),
        close_line("2024.09.01 09:00:10.001"),
    ]);
    assert_eq!(report(&docs).over_threshold_count, 1);
}

#[test]
fn average_with_no_timed_documents_is_zero() {
    // Two opens in a row: the first document is flushed without a close, the
    // second is dropped at end of input; nothing has a printing time.
    let (docs, _) = run(vec![
        open_line("2024.09.01 09:00:00.000"),
        open_line("2024.09.01 09:00:02.000"),
    ]);
    assert_eq!(docs.len(), 1);
    let s = report(&docs);
    assert_eq!(s.total_documents, 1);
    assert_eq!(s.average_printing_time, 0);
    assert_eq!(s.longest_document, None);
}

#[test]
fn average_truncates_toward_zero() {
    let (docs, _) = run(vec![
        open_line("2024.09.01 09:00:00.000"),
        close_line("2024.09.01 09:00:01.000"),
        open_line("2024.09.01 10:00:00.000"),
        close_line("2024.09.01 10:00:02.999"),
    ]);
    // Mean of 1000 ms and 2999 ms is 1999.5 ms: one whole second.
    assert_eq!(report(&docs).average_printing_time, 1);
}

#[test]
fn longest_document_tie_goes_to_the_first() {
    let (docs, _) = run(vec![
        open_line("2024.09.01 09:00:00.000"),
        close_line("2024.09.01 09:00:05.000"),
        open_line("2024.09.01 10:00:00.000"),
        close_line("2024.09.01 10:00:05.000"),
    ]);
    assert_eq!(docs.len(), 2);
    assert_eq!(report(&docs).longest_document, Some(0));
}

#[test]
fn longest_document_prefers_strictly_longer() {
    let (docs, _) = run(vec![
        open_line("2024.09.01 09:00:00.000"),
        close_line("2024.09.01 09:00:05.000"),
        open_line("2024.09.01 10:00:00.000"),
        close_line("2024.09.01 10:00:06.000"),
        open_line("2024.09.01 11:00:00.000"),
        close_line("2024.09.01 11:00:06.000"),
    ]);
    assert_eq!(docs.len(), 3);
    assert_eq!(report(&docs).longest_document, Some(1));
}

#[test]
fn flushed_document_keeps_its_freezes() {
    let (docs, diags) = run(vec![
        open_line("2024.09.01 09:00:00.000"),
        freeze_line("2024.09.01 09:00:01.000"),
        open_line("2024.09.01 09:00:02.000"),
        close_line("2024.09.01 09:00:03.000"),
    ]);
    assert_eq!(docs.len(), 2);
    assert_eq!(docs[0].freeze.as_ref().unwrap().len(), 1);
    assert!(docs[0].close.is_none());
    assert!(docs[1].freeze.is_none());
    assert_eq!(diags, vec![Diagnostic::UnclosedDocument { position: 3 }]);
}
