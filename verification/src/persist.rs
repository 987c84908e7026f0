//! The persisted form of the journal: a header line, then one line per
//! record, `DD-MM-YYYY, <weight>`.

use crate::date::{digit_char, dmy_text, Date, DateStyle};
use crate::error::JournalError;
use crate::store::Record;
use crate::store::all_valid;
use crate::text::{
    chars_of, fields, is_break, is_first_of, is_space, is_trim, lemma_first_of, lemma_trimmed,
    lines, scan, split_fields, split_lines, string_of, views,
};
use crate::weight::{
    decimal_digits, digit_value, lemma_decimal_digits, lemma_tenths_round_trip, parse_tenths,
    push_tenths, tenths_text, weight_of,
};
use vstd::prelude::*;

verus! {

/// The header line names the two columns, `Date` then `Weight`.
pub open spec fn header_ok(line: Seq<char>) -> bool {
    fields(line) == Some(("Date"@, "Weight"@))
}

/// The record of a data line: its two fields read as a date and as a weight;
/// nothing where the line has no comma or a field does not read.
pub open spec fn row_record(line: Seq<char>) -> Option<Record> {
    match fields(line) {
        Some((day, weight)) => match (Date::parsed(day), weight_of(weight)) {
            (Some(date), Some(tenths)) => Some(Record { date, tenths }),
            _ => None,
        },
        None => None,
    }
}

/// The records of the data lines that read, in the lines' order.
pub open spec fn rows_records(rows: Seq<Seq<char>>) -> Seq<Record>
    decreases rows.len(),
{
    if rows.len() == 0 {
        Seq::empty()
    } else {
        let before = rows_records(rows.drop_last());
        match row_record(rows.last()) {
            Some(record) => before.push(record),
            None => before,
        }
    }
}

/// What a persisted text holds: nothing where it has no line; `InvalidHeader`
/// where its first line is no header; else the records of the lines after.
pub open spec fn imported(text: Seq<char>) -> Option<Result<Seq<Record>, JournalError>> {
    let all = lines(text);
    if all.len() == 0 {
        None
    } else if !header_ok(all[0]) {
        Some(Err(JournalError::InvalidHeader))
    } else {
        Some(Ok(rows_records(all.skip(1))))
    }
}

/// Two fields as a line: a comma and a blank stand between them.
pub open spec fn joined(first: Seq<char>, second: Seq<char>) -> Seq<char> {
    first + seq![',', ' '] + second
}

/// The line of a record.
pub open spec fn row_text(record: Record) -> Seq<char> {
    joined(record.date.text(), tenths_text(record.tenths as nat))
}

/// The lines of some records, each closed by a line feed.
pub open spec fn rows_text(records: Seq<Record>) -> Seq<char>
    decreases records.len(),
{
    if records.len() == 0 {
        Seq::empty()
    } else {
        rows_text(records.drop_last()) + row_text(records.last()) + seq!['\n']
    }
}

/// The persisted text of some records: the header, then their lines.
pub open spec fn exported(records: Seq<Record>) -> Seq<char> {
    "Date, Weight\n"@ + rows_text(records)
}

/// Every date of the records, written out, reads back as itself.
pub open spec fn dates_read_back(records: Seq<Record>) -> bool {
    forall|i: int|
        0 <= i < records.len() ==> Date::parsed((#[trigger] records[i]).date.text()) == Some(
            records[i].date,
        )
}

/// Whether two texts hold the same characters.
pub fn same_chars(a: &Vec<char>, b: &Vec<char>) -> (r: bool)
    ensures
        r == (a@ == b@),
{
    if a.len() != b.len() {
        return false;
    }
    let mut i: usize = 0;
    while i < a.len()
        invariant
            0 <= i <= a.len(),
            a.len() == b.len(),
            forall|k: int| 0 <= k < i ==> a@[k] == b@[k],
        decreases a.len() - i,
    {
        if a[i] != b[i] {
            return false;
        }
        i = i + 1;
    }
    proof {
        assert(a@ =~= b@);
    }
    true
}

/// Whether a line is the header.
pub fn is_header(line: &Vec<char>) -> (r: bool)
    ensures
        r == header_ok(line@),
{
    match split_fields(line) {
        Some((first, second)) => {
            let date = chars_of("Date");
            let weight = chars_of("Weight");
            same_chars(&first, &date) && same_chars(&second, &weight)
        },
        None => false,
    }
}

/// The record of a data line.
pub fn parse_row(line: &Vec<char>) -> (r: Option<Record>)
    ensures
        r == row_record(line@),
        r matches Some(record) ==> record.date.wf(),
{
    match split_fields(line) {
        Some((day, weight)) => {
            let day_text = string_of(&day);
            match (Date::parse(day_text.as_str()), parse_tenths(&weight)) {
                (Some(date), Some(tenths)) => Some(Record { date, tenths }),
                _ => None,
            }
        },
        None => None,
    }
}

/// Reads a persisted text.
pub fn read_records(text: &str) -> (r: Option<Result<Vec<Record>, JournalError>>)
    ensures
        match imported(text@) {
            None => r is None,
            Some(Err(e)) => r == Some(Err::<Vec<Record>, JournalError>(e)),
            Some(Ok(records)) => r matches Some(Ok(v)) && v@ == records,
        },
        r matches Some(Ok(v)) ==> all_valid(v@),
{
    let chars = chars_of(text);
    let all = split_lines(&chars);
    if all.len() == 0 {
        return None;
    }
    proof {
        assert(views(all@)[0] == all@[0]@);
    }
    if !is_header(&all[0]) {
        return Some(Err(JournalError::InvalidHeader));
    }
    let ghost rows = lines(text@).skip(1);
    let mut out: Vec<Record> = Vec::new();
    let mut i: usize = 1;
    while i < all.len()
        invariant
            1 <= i <= all.len(),
            views(all@) == lines(text@),
            rows == lines(text@).skip(1),
            out@ == rows_records(rows.take(i - 1)),
            all_valid(out@),
        decreases all.len() - i,
    {
        proof {
            assert(views(all@)[i as int] == all@[i as int]@);
            assert(rows.take(i as int).drop_last() == rows.take(i - 1));
            assert(rows.take(i as int).last() == all@[i as int]@);
        }
        match parse_row(&all[i]) {
            Some(record) => {
                out.push(record);
            },
            None => {},
        }
        i = i + 1;
    }
    proof {
        assert(rows.take(all.len() - 1) == rows);
    }
    Some(Ok(out))
}

/// Adds the characters of `more` to `out`.
pub fn push_all(out: &mut Vec<char>, more: &Vec<char>)
    ensures
        final(out)@ == old(out)@ + more@,
{
    let mut i: usize = 0;
    while i < more.len()
        invariant
            0 <= i <= more.len(),
            out@ == old(out)@ + more@.take(i as int),
        decreases more.len() - i,
    {
        out.push(more[i]);
        proof {
            assert(more@.take(i + 1) == more@.take(i as int).push(more@[i as int]));
            assert(out@ =~= old(out)@ + more@.take(i + 1));
        }
        i = i + 1;
    }
    proof {
        assert(more@.take(more.len() as int) == more@);
    }
}

/// Writes records as persisted text. Read again, the text gives the same
/// records.
pub fn write_records(records: &Vec<Record>) -> (r: String)
    requires
        all_valid(records@),
    ensures
        r@ == exported(records@),
        imported(r@) == Some(Ok::<Seq<Record>, JournalError>(records@)),
{
    let mut out = chars_of("Date, Weight\n");
    let mut i: usize = 0;
    while i < records.len()
        invariant
            0 <= i <= records.len(),
            all_valid(records@),
            out@ == exported(records@.take(i as int)),
            dates_read_back(records@.take(i as int)),
        decreases records.len() - i,
    {
        let record = records[i];
        let ghost before = out@;
        let day = record.date.format(DateStyle::Full);
        let day_chars = chars_of(day.as_str());
        push_all(&mut out, &day_chars);
        out.push(',');
        out.push(' ');
        push_tenths(&mut out, record.tenths);
        out.push('\n');
        proof {
            let seen = records@.take(i as int);
            let next = records@.take(i + 1);
            assert(next.drop_last() == seen);
            assert(next.last() == record);
            assert(out@ =~= before + (row_text(record) + seq!['\n']));
            assert(exported(next) =~= exported(seen) + (row_text(record) + seq!['\n']));
            assert forall|k: int| 0 <= k < next.len() implies Date::parsed(
                (#[trigger] next[k]).date.text(),
            ) == Some(next[k].date) by {
                if k < i {
                    assert(next[k] == seen[k]);
                }
            }
        }
        i = i + 1;
    }
    proof {
        assert(records@.take(records.len() as int) == records@);
        lemma_round_trip(records@);
    }
    string_of(&out)
}

/// Characters without a line break among them, read after a text whose last
/// line is closed, are the line that is open.
pub proof fn lemma_scan_line(head: Seq<char>, line: Seq<char>, k: int)
    requires
        scan(head).1.len() == 0,
        0 <= k <= line.len(),
        forall|i: int| 0 <= i < line.len() ==> !is_break(#[trigger] line[i]),
    ensures
        scan(head + line.take(k)) == (scan(head).0, line.take(k)),
    decreases k,
{
    if k == 0 {
        assert(head + line.take(0) =~= head);
        assert(line.take(0) =~= Seq::<char>::empty());
        assert(scan(head).1 =~= Seq::<char>::empty());
    } else {
        lemma_scan_line(head, line, k - 1);
        let whole = head + line.take(k);
        assert(whole.drop_last() =~= head + line.take(k - 1));
        assert(whole.last() == line[k - 1]);
        assert(line.take(k - 1).push(line[k - 1]) =~= line.take(k));
    }
}

/// A character that is no blank and no comma.
pub open spec fn solid(c: char) -> bool {
    !is_space(c) && c != ','
}

/// Two runs of solid characters with a comma and a blank between them are a
/// line without a line break whose fields are the two runs.
pub proof fn lemma_fields_of_row(day: Seq<char>, weight: Seq<char>)
    requires
        day.len() > 0,
        weight.len() > 0,
        forall|i: int| 0 <= i < day.len() ==> solid(#[trigger] day[i]),
        forall|i: int| 0 <= i < weight.len() ==> solid(#[trigger] weight[i]),
    ensures
        forall|i: int|
            0 <= i < joined(day, weight).len() ==> !is_break(#[trigger] joined(day, weight)[i]),
        fields(joined(day, weight)) == Some((day, weight)),
{
    let row = joined(day, weight);
    let n = day.len() as int;
    assert forall|i: int| 0 <= i < row.len() implies !is_break(#[trigger] row[i]) by {
        if i < n {
            assert(row[i] == day[i]);
            assert(solid(day[i]));
        } else if i >= n + 2 {
            assert(row[i] == weight[i - n - 2]);
            assert(solid(weight[i - n - 2]));
        }
    }
    assert(is_first_of(row, ',', n)) by {
        assert forall|k: int| 0 <= k < n implies row[k] != ',' by {
            assert(row[k] == day[k]);
            assert(solid(day[k]));
        }
        assert(row[n] == ',');
    }
    lemma_first_of(row, ',', n);
    assert(row.take(n) =~= day);
    let tail = row.skip(n + 1);
    assert(tail =~= seq![' '] + weight);
    assert(solid(day[0]) && solid(day[n - 1]));
    assert(is_trim(day, 0, n));
    lemma_trimmed(day, 0, n);
    assert(day.subrange(0, n) =~= day);
    assert(tail[1] == weight[0] && solid(weight[0]));
    assert(tail[tail.len() - 1] == weight[weight.len() - 1] && solid(weight[weight.len() - 1]));
    assert(is_trim(tail, 1, tail.len() as int));
    lemma_trimmed(tail, 1, tail.len() as int);
    assert(tail.subrange(1, tail.len() as int) =~= weight);
}

/// A digit is a solid character.
pub proof fn lemma_digit_solid(n: int)
    ensures
        solid(digit_char(n)),
{
}

/// The text of a date is ten solid characters.
pub proof fn lemma_date_text_solid(y: int, m: int, d: int)
    ensures
        dmy_text(y, m, d).len() == 10,
        forall|i: int| 0 <= i < 10 ==> solid(#[trigger] dmy_text(y, m, d)[i]),
{
    let t = dmy_text(y, m, d);
    let a = digit_char(d / 10);
    let b = digit_char(d % 10);
    let c = digit_char(m / 10);
    let e = digit_char(m % 10);
    let f = digit_char(y / 1000);
    let g = digit_char((y / 100) % 10);
    let h = digit_char((y / 10) % 10);
    let k = digit_char(y % 10);
    lemma_digit_solid(d / 10);
    lemma_digit_solid(d % 10);
    lemma_digit_solid(m / 10);
    lemma_digit_solid(m % 10);
    lemma_digit_solid(y / 1000);
    lemma_digit_solid((y / 100) % 10);
    lemma_digit_solid((y / 10) % 10);
    lemma_digit_solid(y % 10);
    assert(t =~= seq![a, b, '-', c, e, '-', f, g, h, k]);
}

/// The text of a weight is solid characters, at least three.
pub proof fn lemma_tenths_text_solid(tenths: nat)
    ensures
        tenths_text(tenths).len() >= 3,
        forall|i: int| 0 <= i < tenths_text(tenths).len() ==> solid(#[trigger] tenths_text(tenths)[i]),
{
    let whole = decimal_digits(tenths / 10);
    let t = tenths_text(tenths);
    lemma_decimal_digits(tenths / 10);
    lemma_digit_solid((tenths % 10) as int);
    assert forall|i: int| 0 <= i < t.len() implies solid(#[trigger] t[i]) by {
        if i < whole.len() {
            assert(t[i] == whole[i]);
            assert(digit_value(whole[i]) is Some);
        }
    }
}

/// The line of a record holds no line break, and its fields are the text of
/// the date and the text of the weight.
pub proof fn lemma_row_shape(record: Record)
    ensures
        row_text(record).len() > 0,
        forall|i: int| 0 <= i < row_text(record).len() ==> !is_break(#[trigger] row_text(record)[i]),
        fields(row_text(record)) == Some((record.date.text(), tenths_text(record.tenths as nat))),
{
    lemma_date_text_solid(
        record.date.year as int,
        record.date.month as int,
        record.date.day as int,
    );
    lemma_tenths_text_solid(record.tenths as nat);
    lemma_fields_of_row(record.date.text(), tenths_text(record.tenths as nat));
}

/// Reading the lines of some records gives the records back.
pub proof fn lemma_rows_read_back(records: Seq<Record>)
    requires
        dates_read_back(records),
    ensures
        scan("Date, Weight\n"@ + rows_text(records)).1.len() == 0,
        scan("Date, Weight\n"@ + rows_text(records)).0.len() == records.len() + 1,
        scan("Date, Weight\n"@ + rows_text(records)).0[0] == "Date, Weight"@,
        rows_records(scan("Date, Weight\n"@ + rows_text(records)).0.skip(1)) == records,
    decreases records.len(),
{
    let top = "Date, Weight\n"@;
    if records.len() == 0 {
        reveal_strlit("Date, Weight\n");
        reveal_strlit("Date, Weight");
        let name = "Date, Weight"@;
        assert(top + rows_text(records) =~= top);
        lemma_scan_line(Seq::<char>::empty(), name, 12);
        assert(Seq::<char>::empty() + name.take(12) =~= name);
        assert(name.take(12) =~= name);
        assert(top.drop_last() =~= name);
        assert(scan(top).0 =~= seq![name]);
        assert(scan(top).0.skip(1) =~= Seq::<Seq<char>>::empty());
    } else {
        let seen = records.drop_last();
        let record = records.last();
        assert forall|i: int| 0 <= i < seen.len() implies Date::parsed(
            (#[trigger] seen[i]).date.text(),
        ) == Some(seen[i].date) by {
            assert(seen[i] == records[i]);
        }
        lemma_rows_read_back(seen);
        lemma_row_shape(record);
        lemma_tenths_round_trip(record.tenths);
        let head = top + rows_text(seen);
        let row = row_text(record);
        let whole = top + rows_text(records);
        lemma_scan_line(head, row, row.len() as int);
        assert(row.take(row.len() as int) =~= row);
        assert(whole =~= (head + row).push('\n'));
        assert(whole.drop_last() =~= head + row);
        let closed = scan(head).0;
        assert(scan(whole).0 == closed.push(row));
        assert(closed.push(row).skip(1) =~= closed.skip(1).push(row));
        assert(closed.skip(1).push(row).drop_last() =~= closed.skip(1));
        assert(row_record(row) == Some(record));
        assert(seen.push(record) =~= records);
    }
}

/// What is written for some records reads back as those records, in their
/// order, where each date reads back as itself.
pub proof fn lemma_round_trip(records: Seq<Record>)
    requires
        dates_read_back(records),
    ensures
        imported(exported(records)) == Some(Ok::<Seq<Record>, JournalError>(records)),
{
    lemma_rows_read_back(records);
    reveal_strlit("Date, Weight");
    reveal_strlit("Date");
    reveal_strlit("Weight");
    let name = "Date, Weight"@;
    assert(is_first_of(name, ',', 4));
    lemma_first_of(name, ',', 4);
    assert(is_trim(name.take(4), 0, 4));
    lemma_trimmed(name.take(4), 0, 4);
    assert(name.take(4).subrange(0, 4) =~= "Date"@);
    assert(is_trim(name.skip(5), 1, 7));
    lemma_trimmed(name.skip(5), 1, 7);
    assert(name.skip(5).subrange(1, 7) =~= "Weight"@);
}

} // verus!
