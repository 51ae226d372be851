//! Line classifier: recognizes the four event patterns of the printer log
//! and extracts the leading timestamp.
//!
//! A line is recognized when it consists of a `YYYY.MM.DD HH:MM:SS.mmm`
//! timestamp, a `T:`-prefixed upper-case hexadecimal thread token, a severity
//! tag, a bracketed subsystem tag, and a kind-specific payload, the tokens
//! separated by runs of whitespace. The patterns are mutually exclusive
//! ([`lemma_patterns_mutually_exclusive`]); a recognized line whose timestamp
//! digits do not form a real calendar instant is a fatal classification
//! error, and any other line is noise.

use vstd::prelude::*;
use vstd::string::StrSliceExecFns;
use crate::models::{Line, LineType, Timestamp, days_in_month};

verus! {

/// A parse failure: a line matched one of the event patterns but its
/// timestamp digits do not denote a real calendar instant. `position` is the
/// 1-based number of the offending line.
#[derive(Debug, Clone, Copy, PartialEq, Eq, Structural)]
pub struct ParseError {
    pub position: usize,
}

// ---------------------------------------------------------------------------
// Character classes
// ---------------------------------------------------------------------------

/// Unicode whitespace, the class a log line may use to separate tokens.
pub open spec fn is_ws_char(c: char) -> bool {
    let u = c as int;
    ||| u == 32
    ||| 9 <= u <= 13
    ||| u == 0x85
    ||| u == 0xA0
    ||| u == 0x1680
    ||| 0x2000 <= u <= 0x200A
    ||| u == 0x2028
    ||| u == 0x2029
    ||| u == 0x202F
    ||| u == 0x205F
    ||| u == 0x3000
}

pub open spec fn is_digit_char(c: char) -> bool {
    48 <= c as int <= 57
}

/// An upper-case hexadecimal digit, as used by thread tokens and handles.
pub open spec fn is_hex_char(c: char) -> bool {
    is_digit_char(c) || 65 <= c as int <= 70
}

fn ws_char(c: char) -> (b: bool)
    ensures
        b == is_ws_char(c),
{
    let u = c as u32;
    u == 32 || (9 <= u && u <= 13) || u == 0x85 || u == 0xA0 || u == 0x1680 || (0x2000 <= u
        && u <= 0x200A) || u == 0x2028 || u == 0x2029 || u == 0x202F || u == 0x205F || u == 0x3000
}

fn digit_char(c: char) -> (b: bool)
    ensures
        b == is_digit_char(c),
{
    let u = c as u32;
    48 <= u && u <= 57
}

fn hex_char(c: char) -> (b: bool)
    ensures
        b == is_hex_char(c),
{
    let u = c as u32;
    (48 <= u && u <= 57) || (65 <= u && u <= 70)
}

// ---------------------------------------------------------------------------
// Scanning primitives
// ---------------------------------------------------------------------------

/// The characters of `lit` occur in `s` starting at position `i`.
pub open spec fn lit_at(s: Seq<char>, i: int, lit: Seq<char>) -> bool {
    &&& 0 <= i
    &&& i + lit.len() <= s.len()
    &&& forall|k: int| 0 <= k < lit.len() ==> s[i + k] == #[trigger] lit[k]
}

/// The end of the whitespace run of `s` that starts at `i`: the first
/// position at or after `i` holding a non-whitespace character.
pub open spec fn ws_end(s: Seq<char>, i: int) -> int
    decreases s.len() - i,
{
    if 0 <= i && i < s.len() && is_ws_char(s[i]) {
        ws_end(s, i + 1)
    } else {
        i
    }
}

/// The end of the run of upper-case hexadecimal digits starting at `i`.
pub open spec fn hex_end(s: Seq<char>, i: int) -> int
    decreases s.len() - i,
{
    if 0 <= i && i < s.len() && is_hex_char(s[i]) {
        hex_end(s, i + 1)
    } else {
        i
    }
}

fn skip_ws(s: &Vec<char>, i: usize) -> (r: usize)
    requires
        i <= s.len(),
    ensures
        r as int == ws_end(s@, i as int),
        i <= r <= s.len(),
{
    let mut j = i;
    while j < s.len() && ws_char(s[j])
        invariant
            i <= j <= s.len(),
            ws_end(s@, i as int) == ws_end(s@, j as int),
        decreases s.len() - j,
    {
        j += 1;
    }
    j
}

fn skip_hex(s: &Vec<char>, i: usize) -> (r: usize)
    requires
        i <= s.len(),
    ensures
        r as int == hex_end(s@, i as int),
        i <= r <= s.len(),
{
    let mut j = i;
    while j < s.len() && hex_char(s[j])
        invariant
            i <= j <= s.len(),
            hex_end(s@, i as int) == hex_end(s@, j as int),
        decreases s.len() - j,
    {
        j += 1;
    }
    j
}

fn match_lit(s: &Vec<char>, i: usize, lit: &str) -> (b: bool)
    requires
        i <= s.len(),
    ensures
        b == lit_at(s@, i as int, lit@),
{
    let n = lit.unicode_len();
    if n > s.len() - i {
        return false;
    }
    let mut k: usize = 0;
    while k < n
        invariant
            k <= n,
            i + n <= s.len(),
            n == lit@.len(),
            forall|t: int| 0 <= t < k ==> s@[i + t] == #[trigger] lit@[t],
        decreases n - k,
    {
        if s[i + k] != lit.get_char(k) {
            return false;
        }
        k += 1;
    }
    true
}

/// The position after `lit` at `i` and the non-empty whitespace run that
/// must follow it, or -1 when either is missing.
pub open spec fn lit_then_ws(s: Seq<char>, i: int, lit: Seq<char>) -> int {
    if !lit_at(s, i, lit) {
        -1
    } else {
        let j = ws_end(s, i + lit.len());
        if j == i + lit.len() {
            -1
        } else {
            j
        }
    }
}

fn lit_ws(s: &Vec<char>, i: usize, lit: &str) -> (r: Option<usize>)
    requires
        i <= s.len(),
    ensures
        match r {
            Some(j) => j as int == lit_then_ws(s@, i as int, lit@) && j <= s.len(),
            None => lit_then_ws(s@, i as int, lit@) == -1,
        },
{
    if !match_lit(s, i, lit) {
        return None;
    }
    let n = lit.unicode_len();
    let j = skip_ws(s, i + n);
    if j == i + n {
        None
    } else {
        Some(j)
    }
}

// ---------------------------------------------------------------------------
// The leading timestamp
// ---------------------------------------------------------------------------

/// The first 23 characters of the line have the shape
/// `YYYY.MM.DD HH:MM:SS.mmm`.
pub open spec fn ts_shape_ok(s: Seq<char>) -> bool {
    &&& s.len() >= 23
    &&& is_digit_char(s[0])
    &&& is_digit_char(s[1])
    &&& is_digit_char(s[2])
    &&& is_digit_char(s[3])
    &&& s[4] == '.'
    &&& is_digit_char(s[5])
    &&& is_digit_char(s[6])
    &&& s[7] == '.'
    &&& is_digit_char(s[8])
    &&& is_digit_char(s[9])
    &&& s[10] == ' '
    &&& is_digit_char(s[11])
    &&& is_digit_char(s[12])
    &&& s[13] == ':'
    &&& is_digit_char(s[14])
    &&& is_digit_char(s[15])
    &&& s[16] == ':'
    &&& is_digit_char(s[17])
    &&& is_digit_char(s[18])
    &&& s[19] == '.'
    &&& is_digit_char(s[20])
    &&& is_digit_char(s[21])
    &&& is_digit_char(s[22])
}

pub open spec fn digit_val(c: char) -> int {
    c as int - 48
}

/// The timestamp spelled by the digits of a line whose first 23 characters
/// have the timestamp shape. It need not be a real calendar instant.
pub open spec fn ts_of(s: Seq<char>) -> Timestamp {
    Timestamp {
        year: (digit_val(s[0]) * 1000 + digit_val(s[1]) * 100 + digit_val(s[2]) * 10 + digit_val(
            s[3],
        )) as u16,
        month: (digit_val(s[5]) * 10 + digit_val(s[6])) as u8,
        day: (digit_val(s[8]) * 10 + digit_val(s[9])) as u8,
        hour: (digit_val(s[11]) * 10 + digit_val(s[12])) as u8,
        minute: (digit_val(s[14]) * 10 + digit_val(s[15])) as u8,
        second: (digit_val(s[17]) * 10 + digit_val(s[18])) as u8,
        millisecond: (digit_val(s[20]) * 100 + digit_val(s[21]) * 10 + digit_val(s[22])) as u16,
    }
}

fn check_ts_shape(s: &Vec<char>) -> (b: bool)
    ensures
        b == ts_shape_ok(s@),
{
    if s.len() < 23 {
        return false;
    }
    digit_char(s[0]) && digit_char(s[1]) && digit_char(s[2]) && digit_char(s[3]) && s[4] == '.'
        && digit_char(s[5]) && digit_char(s[6]) && s[7] == '.' && digit_char(s[8]) && digit_char(
        s[9],
    ) && s[10] == ' ' && digit_char(s[11]) && digit_char(s[12]) && s[13] == ':' && digit_char(
        s[14],
    ) && digit_char(s[15]) && s[16] == ':' && digit_char(s[17]) && digit_char(s[18]) && s[19] == '.'
        && digit_char(s[20]) && digit_char(s[21]) && digit_char(s[22])
}

fn digit_at(s: &Vec<char>, i: usize) -> (v: u16)
    requires
        i < s.len(),
        is_digit_char(s@[i as int]),
    ensures
        v as int == digit_val(s@[i as int]),
        v <= 9,
{
    (s[i] as u32 - 48) as u16
}

fn parse_timestamp(s: &Vec<char>) -> (t: Timestamp)
    requires
        ts_shape_ok(s@),
    ensures
        t == ts_of(s@),
{
    let year = digit_at(s, 0) * 1000 + digit_at(s, 1) * 100 + digit_at(s, 2) * 10 + digit_at(s, 3);
    let month = (digit_at(s, 5) * 10 + digit_at(s, 6)) as u8;
    let day = (digit_at(s, 8) * 10 + digit_at(s, 9)) as u8;
    let hour = (digit_at(s, 11) * 10 + digit_at(s, 12)) as u8;
    let minute = (digit_at(s, 14) * 10 + digit_at(s, 15)) as u8;
    let second = (digit_at(s, 17) * 10 + digit_at(s, 18)) as u8;
    let millisecond = digit_at(s, 20) * 100 + digit_at(s, 21) * 10 + digit_at(s, 22);
    Timestamp { year, month, day, hour, minute, second, millisecond }
}

fn days_in_month_x(y: u16, m: u8) -> (d: u8)
    requires
        1 <= m <= 12,
    ensures
        d as int == days_in_month(y as int, m as int),
{
    if m == 2 {
        if (y % 4 == 0 && y % 100 != 0) || y % 400 == 0 {
            29
        } else {
            28
        }
    } else if m == 4 || m == 6 || m == 9 || m == 11 {
        30
    } else {
        31
    }
}

fn ts_valid(t: &Timestamp) -> (b: bool)
    ensures
        b == t.wf(),
{
    if t.year > 9999 || t.month < 1 || t.month > 12 {
        return false;
    }
    let dim = days_in_month_x(t.year, t.month);
    1 <= t.day && t.day <= dim && t.hour < 24 && t.minute < 60 && t.second < 60 && t.millisecond
        < 1000
}

// ---------------------------------------------------------------------------
// The common header: timestamp, whitespace, thread token, whitespace
// ---------------------------------------------------------------------------

/// The position where the severity tag starts, after the timestamp, a run of
/// whitespace, the `T:`-prefixed thread token and another run of whitespace;
/// -1 when the line has no such header.
pub open spec fn header_end(s: Seq<char>) -> int {
    if !ts_shape_ok(s) {
        -1
    } else {
        let a = ws_end(s, 23);
        if a == 23 || !lit_at(s, a, "T:"@) {
            -1
        } else {
            let b = hex_end(s, a + 2);
            if b == a + 2 {
                -1
            } else {
                let c = ws_end(s, b);
                if c == b {
                    -1
                } else {
                    c
                }
            }
        }
    }
}

fn find_header(s: &Vec<char>) -> (r: Option<usize>)
    ensures
        match r {
            Some(h) => h as int == header_end(s@) && h <= s.len(),
            None => header_end(s@) == -1,
        },
{
    proof {
        reveal_strlit("T:");
    }
    if !check_ts_shape(s) {
        return None;
    }
    let a = skip_ws(s, 23);
    if a == 23 {
        return None;
    }
    if !match_lit(s, a, "T:") {
        return None;
    }
    let b = skip_hex(s, a + 2);
    if b == a + 2 {
        return None;
    }
    let c = skip_ws(s, b);
    if c == b {
        return None;
    }
    Some(c)
}

// ---------------------------------------------------------------------------
// The four event patterns
// ---------------------------------------------------------------------------

/// A bracketed object handle `[0x…]` of at least one upper-case hexadecimal
/// digit, closing the line at `i`.
pub open spec fn tail_bracket_hex(s: Seq<char>, i: int) -> bool {
    &&& lit_at(s, i, "[0x"@)
    &&& {
        let k = hex_end(s, i + 3);
        &&& k > i + 3
        &&& k < s.len()
        &&& s[k] == ']'
        &&& k + 1 == s.len()
    }
}

fn check_bracket_hex(s: &Vec<char>, i: usize) -> (b: bool)
    requires
        i <= s.len(),
    ensures
        b == tail_bracket_hex(s@, i as int),
{
    proof {
        reveal_strlit("[0x");
    }
    if !match_lit(s, i, "[0x") {
        return false;
    }
    let k = skip_hex(s, i + 3);
    k > i + 3 && k < s.len() && s[k] == ']' && k + 1 == s.len()
}

/// The printer-open invocation line:
/// timestamp, thread token, `INFO`, `[FiscalPrinter]`, `libfptr_open()` and
/// an object handle.
pub open spec fn match_open(s: Seq<char>) -> bool {
    let h = header_end(s);
    let a = lit_then_ws(s, h, "INFO"@);
    let b = lit_then_ws(s, a, "[FiscalPrinter]"@);
    let c = lit_then_ws(s, b, "libfptr_open()"@);
    c >= 0 && tail_bracket_hex(s, c)
}

/// The printer-close invocation line, with `libfptr_close()` as its payload.
pub open spec fn match_close_success(s: Seq<char>) -> bool {
    let h = header_end(s);
    let a = lit_then_ws(s, h, "INFO"@);
    let b = lit_then_ws(s, a, "[FiscalPrinter]"@);
    let c = lit_then_ws(s, b, "libfptr_close()"@);
    c >= 0 && tail_bracket_hex(s, c)
}

/// The connection-failure diagnostic: an `ERROR` line reporting that an
/// object handle was assigned error code 2, no connection.
pub open spec fn match_close_failure(s: Seq<char>) -> bool {
    let h = header_end(s);
    let a = lit_then_ws(s, h, "ERROR"@);
    let b = lit_then_ws(s, a, "[FiscalPrinter]"@);
    let c = lit_then_ws(s, b, "Объекту"@);
    &&& c >= 0
    &&& lit_at(s, c, "0x"@)
    &&& {
        let k = hex_end(s, c + 2);
        &&& k > c + 2
        &&& {
            let d = ws_end(s, k);
            &&& d > k
            &&& {
                let e = lit_then_ws(s, d, "присвоен код ошибки 2"@);
                &&& e >= 0
                &&& lit_at(s, e, "[Нет связи]"@)
                &&& e + "[Нет связи]"@.len() == s.len()
            }
        }
    }
}

/// The transport warning about a possible connection break with automatic
/// reconnect and retry.
pub open spec fn match_freeze(s: Seq<char>) -> bool {
    let h = header_end(s);
    let a = lit_then_ws(s, h, "WARN"@);
    let b = lit_then_ws(s, a, "[Transport]"@);
    &&& b >= 0
    &&& lit_at(s, b, "Возможен обрыв связи. Переподключаемся и проверяем результат задачи..."@)
    &&& b + "Возможен обрыв связи. Переподключаемся и проверяем результат задачи..."@.len()
        == s.len()
}

fn check_open(s: &Vec<char>, h: usize) -> (b: bool)
    requires
        h as int == header_end(s@),
        h <= s.len(),
    ensures
        b == match_open(s@),
{
    let a = match lit_ws(s, h, "INFO") {
        Some(x) => x,
        None => {
            return false;
        },
    };
    let b2 = match lit_ws(s, a, "[FiscalPrinter]") {
        Some(x) => x,
        None => {
            return false;
        },
    };
    let c = match lit_ws(s, b2, "libfptr_open()") {
        Some(x) => x,
        None => {
            return false;
        },
    };
    check_bracket_hex(s, c)
}

fn check_close_success(s: &Vec<char>, h: usize) -> (b: bool)
    requires
        h as int == header_end(s@),
        h <= s.len(),
    ensures
        b == match_close_success(s@),
{
    let a = match lit_ws(s, h, "INFO") {
        Some(x) => x,
        None => {
            return false;
        },
    };
    let b2 = match lit_ws(s, a, "[FiscalPrinter]") {
        Some(x) => x,
        None => {
            return false;
        },
    };
    let c = match lit_ws(s, b2, "libfptr_close()") {
        Some(x) => x,
        None => {
            return false;
        },
    };
    check_bracket_hex(s, c)
}

fn check_close_failure(s: &Vec<char>, h: usize) -> (b: bool)
    requires
        h as int == header_end(s@),
        h <= s.len(),
    ensures
        b == match_close_failure(s@),
{
    proof {
        reveal_strlit("0x");
    }
    let a = match lit_ws(s, h, "ERROR") {
        Some(x) => x,
        None => {
            return false;
        },
    };
    let b2 = match lit_ws(s, a, "[FiscalPrinter]") {
        Some(x) => x,
        None => {
            return false;
        },
    };
    let c = match lit_ws(s, b2, "Объекту") {
        Some(x) => x,
        None => {
            return false;
        },
    };
    if !match_lit(s, c, "0x") {
        return false;
    }
    let k = skip_hex(s, c + 2);
    if !(k > c + 2) {
        return false;
    }
    let d = skip_ws(s, k);
    if d == k {
        return false;
    }
    let e = match lit_ws(s, d, "присвоен код ошибки 2") {
        Some(x) => x,
        None => {
            return false;
        },
    };
    let n = "[Нет связи]".unicode_len();
    match_lit(s, e, "[Нет связи]") && e + n == s.len()
}

fn check_freeze(s: &Vec<char>, h: usize) -> (b: bool)
    requires
        h as int == header_end(s@),
        h <= s.len(),
    ensures
        b == match_freeze(s@),
{
    let a = match lit_ws(s, h, "WARN") {
        Some(x) => x,
        None => {
            return false;
        },
    };
    let b2 = match lit_ws(s, a, "[Transport]") {
        Some(x) => x,
        None => {
            return false;
        },
    };
    let n = "Возможен обрыв связи. Переподключаемся и проверяем результат задачи...".unicode_len();
    match_lit(s, b2, "Возможен обрыв связи. Переподключаемся и проверяем результат задачи...")
        && b2 + n == s.len()
}

// ---------------------------------------------------------------------------
// Classification
// ---------------------------------------------------------------------------

/// The event kind a line encodes, if any; the four patterns are tried in the
/// fixed priority order, but never more than one can hold
/// ([`lemma_patterns_mutually_exclusive`]).
pub open spec fn recognized_kind(s: Seq<char>) -> Option<LineType> {
    if match_open(s) {
        Some(LineType::Open)
    } else if match_close_success(s) {
        Some(LineType::Close(true))
    } else if match_close_failure(s) {
        Some(LineType::Close(false))
    } else if match_freeze(s) {
        Some(LineType::Freeze)
    } else {
        None
    }
}

/// What classifying the line at 1-based position `index` yields: the
/// classified event, `None` for noise, or the fatal error of a recognized
/// line whose timestamp is no real calendar instant.
pub open spec fn spec_classify(index: usize, s: Seq<char>) -> Result<Option<Line>, ParseError> {
    match recognized_kind(s) {
        Some(k) => if ts_of(s).wf() {
            Ok(Some(Line { index, line_type: k, dt: ts_of(s) }))
        } else {
            Err(ParseError { position: index })
        },
        None => Ok(None),
    }
}

proof fn lemma_no_header_no_match(s: Seq<char>)
    requires
        header_end(s) == -1,
    ensures
        !match_open(s),
        !match_close_success(s),
        !match_close_failure(s),
        !match_freeze(s),
{
    assert(!lit_at(s, -1, "INFO"@));
    assert(!lit_at(s, -1, "ERROR"@));
    assert(!lit_at(s, -1, "WARN"@));
}

proof fn lemma_match_implies_shape(s: Seq<char>)
    ensures
        match_open(s) || match_close_success(s) || match_close_failure(s) || match_freeze(s)
            ==> ts_shape_ok(s),
{
    if header_end(s) == -1 {
        lemma_no_header_no_match(s);
    } else {
        assert(ts_shape_ok(s));
    }
}

fn chars_vec(s: &str) -> (r: Vec<char>)
    ensures
        r@ == s@,
{
    let n = s.unicode_len();
    let mut v: Vec<char> = Vec::new();
    let mut i: usize = 0;
    while i < n
        invariant
            i <= n,
            n == s@.len(),
            v@ =~= s@.take(i as int),
        decreases n - i,
    {
        v.push(s.get_char(i));
        i += 1;
    }
    proof {
        assert(s@.take(n as int) =~= s@);
    }
    v
}

/// Classifies one raw line against the four event patterns.
///
/// Yields `Ok(Some(event))` when exactly one pattern matches and the
/// timestamp denotes a real calendar instant, `Ok(None)` when no pattern
/// matches (the line is noise), and an error when a pattern matches but the
/// timestamp digits are out of calendar range.
pub fn parse_line(index: usize, line: &str) -> (r: Result<Option<Line>, ParseError>)
    ensures
        r == spec_classify(index, line@),
        r matches Ok(Some(l)) ==> l.wf() && l.index == index,
{
    let cs = chars_vec(line);
    let h = match find_header(&cs) {
        Some(h) => h,
        None => {
            proof {
                lemma_no_header_no_match(line@);
            }
            return Ok(None);
        },
    };
    let kind: LineType;
    if check_open(&cs, h) {
        kind = LineType::Open;
    } else if check_close_success(&cs, h) {
        kind = LineType::Close(true);
    } else if check_close_failure(&cs, h) {
        kind = LineType::Close(false);
    } else if check_freeze(&cs, h) {
        kind = LineType::Freeze;
    } else {
        return Ok(None);
    }
    proof {
        lemma_match_implies_shape(line@);
    }
    let t = parse_timestamp(&cs);
    if ts_valid(&t) {
        Ok(Some(Line { index, line_type: kind, dt: t }))
    } else {
        Err(ParseError { position: index })
    }
}

// ---------------------------------------------------------------------------
// Mutual exclusivity of the patterns
// ---------------------------------------------------------------------------

proof fn lemma_ltw_nonneg(s: Seq<char>, i: int, lit: Seq<char>)
    requires
        lit_then_ws(s, i, lit) >= 0,
    ensures
        lit_at(s, i, lit),
        i >= 0,
{
}

/// Law: the four line patterns are mutually exclusive — no line text can
/// match more than one of them, so a line yields at most one event and the
/// priority order of classification is only a documented tie-break, never a
/// correctness dependency.
pub proof fn lemma_patterns_mutually_exclusive(s: Seq<char>)
    ensures
        !(match_open(s) && match_close_success(s)),
        !(match_open(s) && match_close_failure(s)),
        !(match_open(s) && match_freeze(s)),
        !(match_close_success(s) && match_close_failure(s)),
        !(match_close_success(s) && match_freeze(s)),
        !(match_close_failure(s) && match_freeze(s)),
{
    reveal_strlit("INFO");
    reveal_strlit("ERROR");
    reveal_strlit("WARN");
    reveal_strlit("libfptr_open()");
    reveal_strlit("libfptr_close()");
    let h = header_end(s);
    if match_open(s) && match_close_success(s) {
        let a = lit_then_ws(s, h, "INFO"@);
        let b = lit_then_ws(s, a, "[FiscalPrinter]"@);
        lemma_ltw_nonneg(s, b, "libfptr_open()"@);
        lemma_ltw_nonneg(s, b, "libfptr_close()"@);
        assert(s[b + 8] == "libfptr_open()"@[8]);
        assert(s[b + 8] == "libfptr_close()"@[8]);
        assert(false);
    }
    if match_open(s) && match_close_failure(s) {
        lemma_ltw_nonneg(s, h, "INFO"@);
        lemma_ltw_nonneg(s, h, "ERROR"@);
        assert(s[h + 0] == "INFO"@[0]);
        assert(s[h + 0] == "ERROR"@[0]);
        assert(false);
    }
    if match_open(s) && match_freeze(s) {
        lemma_ltw_nonneg(s, h, "INFO"@);
        lemma_ltw_nonneg(s, h, "WARN"@);
        assert(s[h + 0] == "INFO"@[0]);
        assert(s[h + 0] == "WARN"@[0]);
        assert(false);
    }
    if match_close_success(s) && match_close_failure(s) {
        lemma_ltw_nonneg(s, h, "INFO"@);
        lemma_ltw_nonneg(s, h, "ERROR"@);
        assert(s[h + 0] == "INFO"@[0]);
        assert(s[h + 0] == "ERROR"@[0]);
        assert(false);
    }
    if match_close_success(s) && match_freeze(s) {
        lemma_ltw_nonneg(s, h, "INFO"@);
        lemma_ltw_nonneg(s, h, "WARN"@);
        assert(s[h + 0] == "INFO"@[0]);
        assert(s[h + 0] == "WARN"@[0]);
        assert(false);
    }
    if match_close_failure(s) && match_freeze(s) {
        lemma_ltw_nonneg(s, h, "ERROR"@);
        lemma_ltw_nonneg(s, h, "WARN"@);
        assert(s[h + 0] == "ERROR"@[0]);
        assert(s[h + 0] == "WARN"@[0]);
        assert(false);
    }
}

/// Law: classification is total and exact — a line's kind is `Some` of the
/// one pattern it matches, and `None` exactly when it matches no pattern, so
/// the priority order never decides between two matching patterns.
pub proof fn lemma_classification_exact(s: Seq<char>)
    ensures
        recognized_kind(s) == Some(LineType::Open) <==> match_open(s),
        recognized_kind(s) == Some(LineType::Close(true)) <==> match_close_success(s),
        recognized_kind(s) == Some(LineType::Close(false)) <==> match_close_failure(s),
        recognized_kind(s) == Some(LineType::Freeze) <==> match_freeze(s),
        recognized_kind(s) is None <==> !match_open(s) && !match_close_success(s)
            && !match_close_failure(s) && !match_freeze(s),
{
    lemma_patterns_mutually_exclusive(s);
}

} // verus!
