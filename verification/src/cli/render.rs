//! Terminal rendering: aligned tables, key-value blocks, timestamps and
//! optional values, laid out as lines of text.

use vstd::prelude::*;
use vstd::utf8::encode_utf8;

use crate::shared::text::{concat, string_views};

verus! {

/// The placeholder shown for an absent value.
pub const ABSENT: &'static str = "—";

/// The number of bytes a text takes in UTF-8 (the width a cell is measured
/// by).
pub open spec fn byte_len(s: Seq<char>) -> nat {
    encode_utf8(s).len()
}

/// `n` spaces.
pub open spec fn spaces(n: nat) -> Seq<char> {
    Seq::new(n, |_i: int| ' ')
}

/// A cell left-aligned in a column of `width` characters: padded with spaces
/// up to `width` characters, never cut.
pub open spec fn padded(cell: Seq<char>, width: nat) -> Seq<char> {
    if cell.len() >= width {
        cell
    } else {
        cell + spaces((width - cell.len()) as nat)
    }
}

/// Whether a character is white space (the Unicode `White_Space` property).
pub open spec fn is_white_space(c: char) -> bool {
    ||| ('\u{9}' <= c && c <= '\u{d}')
    ||| c == ' '
    ||| c == '\u{85}'
    ||| c == '\u{a0}'
    ||| c == '\u{1680}'
    ||| ('\u{2000}' <= c && c <= '\u{200a}')
    ||| c == '\u{2028}'
    ||| c == '\u{2029}'
    ||| c == '\u{202f}'
    ||| c == '\u{205f}'
    ||| c == '\u{3000}'
}

/// `s` without its trailing white space.
pub open spec fn trim_end(s: Seq<char>) -> Seq<char>
    decreases s.len(),
{
    if s.len() > 0 && is_white_space(s.last()) {
        trim_end(s.drop_last())
    } else {
        s
    }
}

/// The widths after measuring one more row: each column as wide as its
/// widest cell so far, in bytes.
pub open spec fn widen(widths: Seq<nat>, row: Seq<Seq<char>>) -> Seq<nat> {
    Seq::new(
        widths.len(),
        |i: int|
            if i < row.len() && byte_len(row[i]) > widths[i] {
                byte_len(row[i])
            } else {
                widths[i]
            },
    )
}

/// The width of each column: the widest of its header and its cells, in
/// bytes.
pub open spec fn column_widths(headers: Seq<Seq<char>>, rows: Seq<Seq<Seq<char>>>) -> Seq<nat>
    decreases rows.len(),
{
    if rows.len() == 0 {
        headers.map_values(|h: Seq<char>| byte_len(h))
    } else {
        widen(column_widths(headers, rows.drop_last()), rows.last())
    }
}

/// The cells of a row, each padded to its column's width, separated by two
/// spaces.
pub open spec fn joined_cells(cells: Seq<Seq<char>>, widths: Seq<nat>) -> Seq<char>
    decreases cells.len(),
{
    if cells.len() == 0 {
        Seq::empty()
    } else if cells.len() == 1 {
        padded(cells[0], widths[0])
    } else {
        joined_cells(cells.drop_last(), widths) + "  "@ + padded(cells.last(), widths[cells.len() - 1])
    }
}

/// One line of a table: the padded cells, without trailing white space.
pub open spec fn table_line(cells: Seq<Seq<char>>, widths: Seq<nat>) -> Seq<char> {
    trim_end(joined_cells(cells, widths))
}

/// The lines of a table: `(none)` when there are no rows, otherwise the
/// header line and one line per row, columns aligned.
pub open spec fn table_text(headers: Seq<Seq<char>>, rows: Seq<Seq<Seq<char>>>) -> Seq<Seq<char>> {
    if rows.len() == 0 {
        seq!["(none)"@]
    } else {
        let widths = column_widths(headers, rows);
        seq![table_line(headers, widths)] + rows.map_values(|r: Seq<Seq<char>>| table_line(r, widths))
    }
}

/// The text of each row of a table.
pub open spec fn row_views(rows: Seq<Vec<String>>) -> Seq<Seq<Seq<char>>> {
    rows.map_values(|r: Vec<String>| string_views(r@))
}

/// The text of each header.
pub open spec fn str_views(items: Seq<&str>) -> Seq<Seq<char>> {
    items.map_values(|s: &str| s@)
}

/// `n` spaces.
fn make_spaces(n: usize) -> (r: String)
    ensures
        r@ == spaces(n as nat),
{
    let mut s = String::new();
    let mut i: usize = 0;
    while i < n
        invariant
            i <= n,
            s@ == spaces(i as nat),
        decreases n - i,
    {
        let next = concat(s.as_str(), " ");
        proof {
            reveal_strlit(" ");
            assert(next@ =~= spaces((i + 1) as nat));
        }
        s = next;
        i = i + 1;
    }
    s
}

/// `cell` padded with spaces to `width` characters.
fn pad(cell: &str, width: usize) -> (r: String)
    ensures
        r@ == padded(cell@, width as nat),
{
    let n = cell.unicode_len();
    if n >= width {
        String::from_str(cell)
    } else {
        let fill = make_spaces(width - n);
        concat(cell, fill.as_str())
    }
}

/// Whether a character is white space.
fn white_space(c: char) -> (r: bool)
    ensures
        r == is_white_space(c),
{
    ('\u{9}' <= c && c <= '\u{d}') || c == ' ' || c == '\u{85}' || c == '\u{a0}' || c == '\u{1680}' || (
    '\u{2000}' <= c && c <= '\u{200a}') || c == '\u{2028}' || c == '\u{2029}' || c == '\u{202f}' || c
        == '\u{205f}' || c == '\u{3000}'
}

/// `s` without its trailing white space.
fn trimmed(s: &str) -> (r: String)
    ensures
        r@ == trim_end(s@),
{
    let mut n = s.unicode_len();
    proof {
        assert(s@.take(n as int) =~= s@);
    }
    while n > 0 && white_space(s.get_char(n - 1))
        invariant
            n <= s@.len(),
            trim_end(s@) == trim_end(s@.take(n as int)),
        decreases n,
    {
        proof {
            assert(s@.take(n as int).drop_last() =~= s@.take(n - 1));
            assert(s@.take(n as int).last() == s@[n - 1]);
        }
        n = n - 1;
    }
    let r = s.substring_char(0, n);
    proof {
        assert(r@ =~= s@.take(n as int));
    }
    String::from_str(r)
}

/// The row's cells padded and joined, without trailing white space.
fn render_line(cells: &Vec<String>, widths: &Vec<usize>) -> (r: String)
    requires
        cells@.len() <= widths@.len(),
    ensures
        r@ == table_line(string_views(cells@), widths@.map_values(|w: usize| w as nat)),
{
    let ghost ws = widths@.map_values(|w: usize| w as nat);
    let ghost views = string_views(cells@);
    let mut line = String::new();
    let mut i: usize = 0;
    while i < cells.len()
        invariant
            i <= cells@.len(),
            cells@.len() <= widths@.len(),
            ws == widths@.map_values(|w: usize| w as nat),
            views == string_views(cells@),
            line@ == joined_cells(views.take(i as int), ws),
        decreases cells@.len() - i,
    {
        let cell = pad(cells[i].as_str(), widths[i]);
        proof {
            assert(views.take(i + 1).drop_last() =~= views.take(i as int));
            assert(views.take(i + 1).last() == cells@[i as int]@);
            assert(ws[i as int] == widths@[i as int] as nat);
        }
        if i == 0 {
            line = cell;
        } else {
            let with_sep = concat(line.as_str(), "  ");
            proof {
                reveal_strlit("  ");
            }
            line = concat(with_sep.as_str(), cell.as_str());
        }
        proof {
            if i == 0 {
                assert(views.take(1).len() == 1);
            }
        }
        i = i + 1;
    }
    proof {
        assert(views.take(cells@.len() as int) =~= views);
    }
    trimmed(line.as_str())
}

/// Lays out an aligned table: `(none)` when there are no rows, otherwise a
/// header line and one line per row, each column as wide as its widest
/// header or cell (in bytes), cells separated by two spaces, trailing white
/// space trimmed.
pub fn table_lines(headers: &Vec<&str>, rows: &Vec<Vec<String>>) -> (r: Vec<String>)
    requires
        forall|k: int| 0 <= k < rows@.len() ==> (#[trigger] rows@[k])@.len() <= headers@.len(),
    ensures
        string_views(r@) == table_text(str_views(headers@), row_views(rows@)),
{
    if rows.len() == 0 {
        let mut out: Vec<String> = Vec::new();
        out.push(String::from_str("(none)"));
        proof {
            assert(string_views(out@) =~= seq!["(none)"@]);
        }
        return out;
    }
    let ghost hs = str_views(headers@);
    let ghost rs = row_views(rows@);
    let mut widths: Vec<usize> = Vec::new();
    let mut h: usize = 0;
    while h < headers.len()
        invariant
            h <= headers@.len(),
            hs == str_views(headers@),
            widths@.len() == h,
            forall|j: int| 0 <= j < h ==> widths@[j] as nat == byte_len(hs[j]),
        decreases headers@.len() - h,
    {
        widths.push(headers[h].as_bytes().len());
        h = h + 1;
    }
    proof {
        assert(widths@.map_values(|w: usize| w as nat) =~= column_widths(hs, rs.take(0)));
    }
    let mut k: usize = 0;
    while k < rows.len()
        invariant
            k <= rows@.len(),
            hs == str_views(headers@),
            rs == row_views(rows@),
            widths@.len() == headers@.len(),
            forall|m: int| 0 <= m < rows@.len() ==> (#[trigger] rows@[m])@.len() <= headers@.len(),
            widths@.map_values(|w: usize| w as nat) == column_widths(hs, rs.take(k as int)),
        decreases rows@.len() - k,
    {
        let row = &rows[k];
        let ghost before = widths@.map_values(|w: usize| w as nat);
        let mut i: usize = 0;
        while i < row.len()
            invariant
                i <= row@.len(),
                row@.len() <= widths@.len(),
                widths@.len() == headers@.len(),
                before.len() == widths@.len(),
                forall|j: int| 0 <= j < widths@.len() ==> (widths@[j] as nat) == (if j < i {
                    widen(before, string_views(row@))[j]
                } else {
                    before[j]
                }),
            decreases row@.len() - i,
        {
            let n = row[i].as_str().as_bytes().len();
            if n > widths[i] {
                widths.set(i, n);
            }
            i = i + 1;
        }
        proof {
            assert(rs.take(k + 1).drop_last() =~= rs.take(k as int));
            assert(rs.take(k + 1).last() == string_views(row@));
            assert(widths@.map_values(|w: usize| w as nat) =~= widen(before, string_views(row@)));
        }
        k = k + 1;
    }
    proof {
        assert(rs.take(rows@.len() as int) =~= rs);
    }
    let ghost ws = widths@.map_values(|w: usize| w as nat);
    let mut out: Vec<String> = Vec::new();
    let mut header_cells: Vec<String> = Vec::new();
    let mut j: usize = 0;
    while j < headers.len()
        invariant
            j <= headers@.len(),
            hs == str_views(headers@),
            string_views(header_cells@) == hs.take(j as int),
        decreases headers@.len() - j,
    {
        let ghost b = string_views(header_cells@);
        header_cells.push(String::from_str(headers[j]));
        proof {
            assert(string_views(header_cells@) =~= b.push(headers@[j as int]@));
            assert(hs.take(j + 1) =~= hs.take(j as int).push(hs[j as int]));
        }
        j = j + 1;
    }
    proof {
        assert(hs.take(headers@.len() as int) =~= hs);
    }
    out.push(render_line(&header_cells, &widths));
    let mut k2: usize = 0;
    while k2 < rows.len()
        invariant
            k2 <= rows@.len(),
            rs == row_views(rows@),
            ws == widths@.map_values(|w: usize| w as nat),
            widths@.len() == headers@.len(),
            forall|m: int| 0 <= m < rows@.len() ==> (#[trigger] rows@[m])@.len() <= headers@.len(),
            string_views(out@) == seq![table_line(hs, ws)] + rs.take(k2 as int).map_values(
                |r: Seq<Seq<char>>| table_line(r, ws),
            ),
        decreases rows@.len() - k2,
    {
        let ghost b = string_views(out@);
        let line = render_line(&rows[k2], &widths);
        out.push(line);
        proof {
            assert(rs[k2 as int] == string_views(rows@[k2 as int]@));
            assert(string_views(out@) =~= b.push(line@));
            assert(rs.take(k2 + 1).map_values(|r: Seq<Seq<char>>| table_line(r, ws)) =~= rs.take(
                k2 as int,
            ).map_values(|r: Seq<Seq<char>>| table_line(r, ws)).push(table_line(rs[k2 as int], ws)));
        }
        k2 = k2 + 1;
    }
    proof {
        assert(rs.take(rows@.len() as int) =~= rs);
    }
    out
}

/// The lines of a key-value block: each key padded to the widest key (in
/// bytes), two spaces, then the value.
pub open spec fn kv_text(pairs: Seq<(Seq<char>, Seq<char>)>) -> Seq<Seq<char>> {
    let width = key_width(pairs);
    pairs.map_values(|p: (Seq<char>, Seq<char>)| padded(p.0, width) + "  "@ + p.1)
}

/// The widest key, in bytes (0 for no keys).
pub open spec fn key_width(pairs: Seq<(Seq<char>, Seq<char>)>) -> nat
    decreases pairs.len(),
{
    if pairs.len() == 0 {
        0
    } else {
        let w = key_width(pairs.drop_last());
        if byte_len(pairs.last().0) > w {
            byte_len(pairs.last().0)
        } else {
            w
        }
    }
}

/// The text of each key-value pair.
pub open spec fn pair_views(pairs: Seq<(&str, String)>) -> Seq<(Seq<char>, Seq<char>)> {
    pairs.map_values(|p: (&str, String)| (p.0@, p.1@))
}

/// Lays out an aligned key-value block (the `show` views).
pub fn kv_lines(pairs: &Vec<(&str, String)>) -> (r: Vec<String>)
    ensures
        string_views(r@) == kv_text(pair_views(pairs@)),
{
    let ghost ps = pair_views(pairs@);
    let mut width: usize = 0;
    let mut k: usize = 0;
    while k < pairs.len()
        invariant
            k <= pairs@.len(),
            ps == pair_views(pairs@),
            width as nat == key_width(ps.take(k as int)),
        decreases pairs@.len() - k,
    {
        let n = pairs[k].0.as_bytes().len();
        proof {
            assert(ps.take(k + 1).drop_last() =~= ps.take(k as int));
            assert(ps.take(k + 1).last() == (pairs@[k as int].0@, pairs@[k as int].1@));
        }
        if n > width {
            width = n;
        }
        k = k + 1;
    }
    proof {
        assert(ps.take(pairs@.len() as int) =~= ps);
    }
    let mut out: Vec<String> = Vec::new();
    let mut i: usize = 0;
    while i < pairs.len()
        invariant
            i <= pairs@.len(),
            ps == pair_views(pairs@),
            width as nat == key_width(ps),
            string_views(out@) == ps.take(i as int).map_values(
                |p: (Seq<char>, Seq<char>)| padded(p.0, key_width(ps)) + "  "@ + p.1,
            ),
        decreases pairs@.len() - i,
    {
        let key = pad(pairs[i].0, width);
        let with_sep = concat(key.as_str(), "  ");
        let line = concat(with_sep.as_str(), pairs[i].1.as_str());
        let ghost b = string_views(out@);
        out.push(line);
        proof {
            reveal_strlit("  ");
            assert(string_views(out@) =~= b.push(line@));
            assert(ps[i as int] == (pairs@[i as int].0@, pairs@[i as int].1@));
            assert(ps.take(i + 1).map_values(
                |p: (Seq<char>, Seq<char>)| padded(p.0, key_width(ps)) + "  "@ + p.1,
            ) =~= ps.take(i as int).map_values(
                |p: (Seq<char>, Seq<char>)| padded(p.0, key_width(ps)) + "  "@ + p.1,
            ).push(line@));
        }
        i = i + 1;
    }
    proof {
        assert(ps.take(pairs@.len() as int) =~= ps);
    }
    out
}

/// A boolean as shown: `true` or `false`.
pub fn bool_text(b: bool) -> (r: String)
    ensures
        r@ == (if b { "true"@ } else { "false"@ }),
{
    if b {
        String::from_str("true")
    } else {
        String::from_str("false")
    }
}

/// An optional text as shown: the text itself, or `—` when absent or empty.
pub open spec fn shown(value: Option<Seq<char>>) -> Seq<char> {
    match value {
        Some(s) => if s.len() > 0 {
            s
        } else {
            ABSENT@
        },
        None => ABSENT@,
    }
}

/// An optional string, or `—` when absent or empty.
pub fn opt(value: Option<String>) -> (r: String)
    ensures
        r@ == shown(match value {
            Some(s) => Some(s@),
            None => None,
        }),
{
    match value {
        Some(s) => if s.unicode_len() > 0 {
            s
        } else {
            String::from_str(ABSENT)
        },
        None => String::from_str(ABSENT),
    }
}

/// The latest millisecond timestamp the calendar formatting can place: two
/// days before the end of the last year `chrono` represents (262,142, which
/// ends at 8,210,266,876,800,000 ms), so that no time zone offset (always
/// under a day) carries it past that year.
pub const MAX_RENDERABLE_MILLIS: u64 = 8_210_266_704_000_000;

/// How timestamps are shown: `YYYY-MM-DD HH:MM`, in local time.
pub const TIME_PATTERN: &'static str = "%Y-%m-%d %H:%M";

/// Whether `c` is an ASCII decimal digit.
pub open spec fn is_digit(c: char) -> bool {
    '0' <= c && c <= '9'
}

/// The shape of a shown time: a year of at least four characters, then
/// `-MM-DD HH:MM` in two-digit fields.
pub open spec fn time_layout(s: Seq<char>) -> bool {
    let n = s.len() as int;
    &&& n >= 16
    &&& s[n - 12] == '-' && is_digit(s[n - 11]) && is_digit(s[n - 10])
    &&& s[n - 9] == '-' && is_digit(s[n - 8]) && is_digit(s[n - 7])
    &&& s[n - 6] == ' ' && is_digit(s[n - 5]) && is_digit(s[n - 4])
    &&& s[n - 3] == ':' && is_digit(s[n - 2]) && is_digit(s[n - 1])
}

/// Formats a millisecond Unix timestamp as local time with `pattern`
/// (`chrono::DateTime::from_timestamp_millis`, then `with_timezone(&Local)`
/// and `format`). Claimed: a timestamp in range converts, and with
/// [`TIME_PATTERN`] the text has the shape `time_layout` states (chrono
/// writes `%Y` with at least four characters and `%m`, `%d`, `%H`, `%M` as
/// two digits). Which date and time it shows depends on the machine's time
/// zone, so the digits are not stated.
#[verifier::external_body]
fn local_time_text(ms: u64, pattern: &str) -> (r: Option<String>)
    requires
        ms <= MAX_RENDERABLE_MILLIS,
        pattern@ == TIME_PATTERN@,
    ensures
        r is Some,
        r matches Some(t) ==> time_layout(t@),
{
    match chrono::DateTime::from_timestamp_millis(ms as i64) {
        Some(utc) => Some(utc.with_timezone(&chrono::Local).format(pattern).to_string()),
        None => None,
    }
}

/// Whether a timestamp (if any) can be shown.
pub open spec fn renderable(millis: Option<u64>) -> bool {
    match millis {
        Some(ms) => ms <= MAX_RENDERABLE_MILLIS,
        None => true,
    }
}

/// The shown absence of a time is never a time.
pub proof fn lemma_absent_is_no_time()
    ensures
        !time_layout(ABSENT@),
{
    reveal_strlit("—");
}

/// A millisecond epoch timestamp as local time, or `—` when absent.
pub fn time(millis: Option<u64>) -> (r: String)
    requires
        millis matches Some(ms) ==> ms <= MAX_RENDERABLE_MILLIS,
    ensures
        millis is None ==> r@ == ABSENT@,
        millis is Some ==> time_layout(r@),
{
    match millis {
        Some(ms) => local_time_text(ms, TIME_PATTERN).unwrap(),
        None => String::from_str(ABSENT),
    }
}

/// One value of an event payload, as the history view shows it.
#[derive(Debug)]
pub enum PayloadValue {
    /// A string, shown as is.
    Text(String),
    /// A null, shown as `—`.
    Null,
    /// Any other JSON value, shown as its JSON text.
    Json(String),
}

/// The text a payload value is shown as.
pub open spec fn value_text(v: PayloadValue) -> Seq<char> {
    match v {
        PayloadValue::Text(s) => s@,
        PayloadValue::Null => ABSENT@,
        PayloadValue::Json(s) => s@,
    }
}

/// `key: value` for each field, separated by `, `.
pub open spec fn fields_text(fields: Seq<(String, PayloadValue)>) -> Seq<char>
    decreases fields.len(),
{
    if fields.len() == 0 {
        Seq::empty()
    } else if fields.len() == 1 {
        fields[0].0@ + ": "@ + value_text(fields[0].1)
    } else {
        fields_text(fields.drop_last()) + ", "@ + fields.last().0@ + ": "@ + value_text(fields.last().1)
    }
}

/// An event payload as a compact `key: value, key: value` summary; empty
/// unless the payload is an object (`fields` is `None` otherwise).
pub fn payload(fields: Option<&Vec<(String, PayloadValue)>>) -> (r: String)
    ensures
        r@ == match fields {
            Some(f) => fields_text(f@),
            None => Seq::empty(),
        },
{
    let fields = match fields {
        Some(f) => f,
        None => {
            return String::new();
        },
    };
    let mut out = String::new();
    let mut i: usize = 0;
    while i < fields.len()
        invariant
            i <= fields@.len(),
            out@ == fields_text(fields@.take(i as int)),
        decreases fields@.len() - i,
    {
        let (key, value) = &fields[i];
        let text: &str = match value {
            PayloadValue::Text(s) => s.as_str(),
            PayloadValue::Null => ABSENT,
            PayloadValue::Json(s) => s.as_str(),
        };
        let head = if i == 0 {
            String::new()
        } else {
            concat(out.as_str(), ", ")
        };
        let with_key = concat(head.as_str(), key.as_str());
        let with_colon = concat(with_key.as_str(), ": ");
        let next = concat(with_colon.as_str(), text);
        proof {
            reveal_strlit(", ");
            reveal_strlit(": ");
            assert(fields@.take(i + 1).drop_last() =~= fields@.take(i as int));
            assert(fields@.take(i + 1).last() == fields@[i as int]);
            assert(text@ == value_text(fields@[i as int].1));
            if i == 0 {
                assert(fields@.take(1).len() == 1);
                assert(next@ =~= fields_text(fields@.take(1)));
            } else {
                assert(next@ =~= fields_text(fields@.take(i + 1)));
            }
        }
        out = next;
        i = i + 1;
    }
    proof {
        assert(fields@.take(fields@.len() as int) =~= fields@);
    }
    out
}

} // verus!
