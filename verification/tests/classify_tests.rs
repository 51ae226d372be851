use fiscal_log::classify::{parse_line, ParseError};
use fiscal_log::models::{LineType, Timestamp};

fn ts(year: u16, month: u8, day: u8, hour: u8, minute: u8, second: u8, millisecond: u16) -> Timestamp {
    Timestamp { year, month, day, hour, minute, second, millisecond }
}

#[test]
fn classify_open_line() {
    let line = "2024.09.01 09:00:00.000 T:1A2B INFO [FiscalPrinter] libfptr_open() [0x7F3C]";
    let ev = parse_line(1, line).unwrap().unwrap();
    assert_eq!(ev.index, 1);
    assert_eq!(ev.line_type, LineType::Open);
    assert_eq!(ev.dt, ts(2024, 9, 1, 9, 0, 0, 0));
}

#[test]
fn classify_close_success_line() {
    let line = "2024.12.31 23:59:59.999 T:FF INFO [FiscalPrinter] libfptr_close() [0xABC]";
    let ev = parse_line(7, line).unwrap().unwrap();
    assert_eq!(ev.index, 7);
    assert_eq!(ev.line_type, LineType::Close(true));
    assert_eq!(ev.dt, ts(2024, 12, 31, 23, 59, 59, 999));
}

#[test]
fn classify_close_failure_line() {
    let line = "2024.09.01 09:00:01.500 T:1A2B ERROR [FiscalPrinter] Объекту 0x7F3C присвоен код ошибки 2 [Нет связи]";
    let ev = parse_line(2, line).unwrap().unwrap();
    assert_eq!(ev.line_type, LineType::Close(false));
    assert_eq!(ev.dt, ts(2024, 9, 1, 9, 0, 1, 500));
}

#[test]
fn classify_freeze_line() {
    let line = "2024.09.01 09:00:05.000 T:1A2B WARN [Transport] Возможен обрыв связи. Переподключаемся и проверяем результат задачи...";
    let ev = parse_line(3, line).unwrap().unwrap();
    assert_eq!(ev.line_type, LineType::Freeze);
    assert_eq!(ev.dt, ts(2024, 9, 1, 9, 0, 5, 0));
}

#[test]
fn classify_accepts_wide_whitespace_runs() {
    let line = "2024.09.01 09:00:00.000   T:1A2B\u{A0}INFO  [FiscalPrinter]\t libfptr_open()  [0x7F3C]";
    let ev = parse_line(1, line).unwrap().unwrap();
    assert_eq!(ev.line_type, LineType::Open);
}

#[test]
fn classify_rejects_plain_noise() {
    assert_eq!(parse_line(1, "hello world"), Ok(None));
    assert_eq!(parse_line(2, ""), Ok(None));
}

#[test]
fn classify_rejects_near_misses() {
    // Wrong subsystem for an open invocation.
    let wrong_subsystem = "2024.09.01 09:00:00.000 T:1A2B INFO [Transport] libfptr_open() [0x7F3C]";
    assert_eq!(parse_line(1, wrong_subsystem), Ok(None));
    // Lower-case hex in the thread token is not part of the token alphabet.
    let lower_hex = "2024.09.01 09:00:00.000 T:1a2b INFO [FiscalPrinter] libfptr_open() [0x7F3C]";
    assert_eq!(parse_line(1, lower_hex), Ok(None));
    // Trailing garbage after the closing bracket.
    let trailing = "2024.09.01 09:00:00.000 T:1A2B INFO [FiscalPrinter] libfptr_open() [0x7F3C] x";
    assert_eq!(parse_line(1, trailing), Ok(None));
    // A severity the patterns never use.
    let wrong_sev = "2024.09.01 09:00:00.000 T:1A2B DEBUG [FiscalPrinter] libfptr_open() [0x7F3C]";
    assert_eq!(parse_line(1, wrong_sev), Ok(None));
    // An empty object handle.
    let empty_handle = "2024.09.01 09:00:00.000 T:1A2B INFO [FiscalPrinter] libfptr_open() [0x]";
    assert_eq!(parse_line(1, empty_handle), Ok(None));
}

#[test]
fn classify_bad_month_is_fatal() {
    let line = "2024.13.01 09:00:00.000 T:1A INFO [FiscalPrinter] libfptr_open() [0xA]";
    assert_eq!(parse_line(4, line), Err(ParseError { position: 4 }));
}

#[test]
fn classify_bad_day_is_fatal() {
    // 2023 is not a leap year, so February 29 is out of range.
    let line = "2023.02.29 09:00:00.000 T:1A INFO [FiscalPrinter] libfptr_close() [0xA]";
    assert_eq!(parse_line(9, line), Err(ParseError { position: 9 }));
    // In a leap year the same day is accepted.
    let leap = "2024.02.29 09:00:00.000 T:1A INFO [FiscalPrinter] libfptr_close() [0xA]";
    assert!(parse_line(9, leap).unwrap().is_some());
}

#[test]
fn classify_bad_hour_is_fatal() {
    let line = "2024.09.01 24:00:00.000 T:1A WARN [Transport] Возможен обрыв связи. Переподключаемся и проверяем результат задачи...";
    assert_eq!(parse_line(5, line), Err(ParseError { position: 5 }));
}
