use vstd::prelude::*;
use crate::application::csv_exchange::{
    CsvExchangeErrorView, CsvScan, csv_rows, csv_scan, csv_start, doubled_quotes, escaped_field,
    export_fields, export_line, export_lines, export_text, joined, native_header, needs_quotes,
};
use crate::domain::transaction::TransactionView;

verus! {

/// The line feeds in a text.
pub open spec fn line_feeds(text: Seq<char>) -> int
    decreases text.len(),
{
    if text.len() == 0 {
        0
    } else {
        line_feeds(text.drop_last()) + if text.last() == '\n' {
            1int
        } else {
            0int
        }
    }
}

/// The line feeds in a list of fields.
pub open spec fn fields_line_feeds(fields: Seq<Seq<char>>) -> int
    decreases fields.len(),
{
    if fields.len() == 0 {
        0
    } else {
        fields_line_feeds(fields.drop_last()) + line_feeds(fields.last())
    }
}

/// How a record is written in a CSV file: its escaped fields separated by commas, and a
/// line feed.
pub open spec fn csv_record(fields: Seq<Seq<char>>) -> Seq<char> {
    joined(fields.map_values(|field: Seq<char>| escaped_field(field))) + seq!['\n']
}

/// A CSV file holding the records in order.
pub open spec fn csv_text(records: Seq<Seq<Seq<char>>>) -> Seq<char>
    decreases records.len(),
{
    if records.len() == 0 {
        Seq::empty()
    } else {
        csv_text(records.drop_last()) + csv_record(records.last())
    }
}

/// The fields of rows read from a CSV text, without the lines they start on.
pub open spec fn rows_fields(rows: Seq<(int, Seq<Seq<char>>)>) -> Seq<Seq<Seq<char>>> {
    rows.map_values(|row: (int, Seq<Seq<char>>)| row.1)
}

/// The state after reading whole records from a state between records.
pub open spec fn state_after(records: Seq<Seq<Seq<char>>>, start: CsvScan) -> CsvScan
    decreases records.len(),
{
    if records.len() == 0 {
        start
    } else {
        let before = state_after(records.drop_last(), start);
        let line = before.line + fields_line_feeds(records.last()) + 1;
        CsvScan {
            rows: before.rows.push((before.row_line, records.last())),
            row: Seq::empty(),
            field: Seq::empty(),
            in_quotes: false,
            line,
            row_line: line,
        }
    }
}

/// Whether a character ends a field outside quotes.
pub open spec fn special(c: char) -> bool {
    c == ',' || c == '"' || c == '\n' || c == '\r'
}

proof fn lemma_unquoted_run(input: Seq<char>, p: int, k: int, state: CsvScan)
    requires
        0 <= p,
        0 <= k,
        p + k <= input.len(),
        !state.in_quotes,
        forall|j: int| p <= j < p + k ==> !special(#[trigger] input[j]),
    ensures
        csv_scan(input, p, state) == csv_scan(
            input,
            p + k,
            CsvScan { field: state.field + input.subrange(p, p + k), ..state },
        ),
    decreases k,
{
    if k == 0 {
        assert(state.field + input.subrange(p, p) =~= state.field);
        assert(CsvScan { field: state.field + input.subrange(p, p + k), ..state } == state);
    } else {
        lemma_unquoted_run(input, p, k - 1, state);
        let q = p + k - 1;
        let before = CsvScan { field: state.field + input.subrange(p, q), ..state };
        assert(!special(input[q]));
        assert(before.field.push(input[q]) =~= state.field + input.subrange(p, p + k));
    }
}

proof fn lemma_no_line_feeds(text: Seq<char>)
    requires
        !needs_quotes(text),
    ensures
        line_feeds(text) == 0,
        forall|j: int| 0 <= j < text.len() ==> !special(#[trigger] text[j]),
    decreases text.len(),
{
    assert forall|j: int| 0 <= j < text.len() implies !special(#[trigger] text[j]) by {
        if special(text[j]) {
            assert(text[j] == ',' || text[j] == '"' || text[j] == '\n' || text[j] == '\r');
        }
    }
    if text.len() > 0 {
        let rest = text.drop_last();
        assert(!needs_quotes(rest)) by {
            if needs_quotes(rest) {
                let i = choose|i: int|
                    0 <= i < rest.len() && (#[trigger] rest[i] == ',' || rest[i] == '"' || rest[i]
                        == '\n' || rest[i] == '\r');
                assert(rest[i] == text[i]);
            }
        }
        lemma_no_line_feeds(rest);
        assert(!special(text[text.len() - 1]));
    }
}

proof fn lemma_doubled_prefix(text: Seq<char>, t: int)
    requires
        0 <= t <= text.len(),
    ensures
        doubled_quotes(text.subrange(0, t)).len() <= doubled_quotes(text).len(),
        doubled_quotes(text).subrange(0, doubled_quotes(text.subrange(0, t)).len() as int)
            == doubled_quotes(text.subrange(0, t)),
    decreases text.len(),
{
    if t == text.len() {
        assert(text.subrange(0, t) =~= text);
        assert(doubled_quotes(text).subrange(0, doubled_quotes(text).len() as int) =~= doubled_quotes(text));
    } else {
        let rest = text.drop_last();
        assert(rest.subrange(0, t) =~= text.subrange(0, t));
        lemma_doubled_prefix(rest, t);
        let d = doubled_quotes(rest);
        let n = doubled_quotes(text.subrange(0, t)).len() as int;
        if text.last() == '"' {
            assert(doubled_quotes(text) == d + seq!['"', '"']);
        } else {
            assert(doubled_quotes(text) == d.push(text.last()));
        }
        assert(doubled_quotes(text).subrange(0, n) =~= d.subrange(0, n));
    }
}

proof fn lemma_quoted_body(input: Seq<char>, p: int, text: Seq<char>, t: int, state: CsvScan)
    requires
        0 <= p,
        0 <= t <= text.len(),
        state.in_quotes,
        p + doubled_quotes(text).len() <= input.len(),
        input.subrange(p, p + doubled_quotes(text).len()) == doubled_quotes(text),
    ensures
        csv_scan(input, p, state) == csv_scan(
            input,
            p + doubled_quotes(text.subrange(0, t)).len(),
            CsvScan {
                field: state.field + text.subrange(0, t),
                line: state.line + line_feeds(text.subrange(0, t)),
                ..state
            },
        ),
    decreases t,
{
    if t == 0 {
        assert(text.subrange(0, 0) =~= Seq::<char>::empty());
        assert(state.field + text.subrange(0, 0) =~= state.field);
    } else {
        lemma_quoted_body(input, p, text, t - 1, state);
        let before = text.subrange(0, t - 1);
        let now = text.subrange(0, t);
        assert(now.drop_last() =~= before);
        assert(now.last() == text[t - 1]);
        lemma_doubled_prefix(text, t);
        let q = p + doubled_quotes(before).len();
        let whole = doubled_quotes(text);
        let d_now = doubled_quotes(now);
        assert(whole.subrange(0, d_now.len() as int) == d_now);
        let c = text[t - 1];
        let scanned = CsvScan {
            field: state.field + before,
            line: state.line + line_feeds(before),
            ..state
        };
        let n = doubled_quotes(before).len() as int;
        assert(q - p == n);
        assert(input.subrange(p, p + whole.len())[n] == input[q]);
        assert(whole.subrange(0, d_now.len() as int)[n] == whole[n]);
        if c == '"' {
            assert(d_now == doubled_quotes(before) + seq!['"', '"']);
            assert(input.subrange(p, p + whole.len())[n + 1] == input[q + 1]);
            assert(whole.subrange(0, d_now.len() as int)[n + 1] == whole[n + 1]);
            assert(d_now[n] == '"' && d_now[n + 1] == '"');
            assert(input[q] == '"');
            assert(input[q + 1] == '"');
            assert(scanned.field.push('"') =~= state.field + now);
        } else {
            assert(d_now == doubled_quotes(before).push(c));
            assert(d_now[n] == c);
            assert(input[q] == c);
            assert(scanned.field.push(c) =~= state.field + now);
        }
    }
}

proof fn lemma_field(input: Seq<char>, p: int, text: Seq<char>, state: CsvScan)
    requires
        0 <= p,
        !state.in_quotes,
        state.field.len() == 0,
        p + escaped_field(text).len() < input.len(),
        input.subrange(p, p + escaped_field(text).len()) == escaped_field(text),
        input[p + escaped_field(text).len()] == ',' || input[p + escaped_field(text).len()] == '\n',
    ensures
        csv_scan(input, p, state) == csv_scan(
            input,
            p + escaped_field(text).len(),
            CsvScan { field: text, line: state.line + line_feeds(text), ..state },
        ),
{
    let e = escaped_field(text);
    if needs_quotes(text) {
        let d = doubled_quotes(text);
        assert(e == seq!['"'] + d + seq!['"']);
        assert(input[p] == e[0]);
        let opened = CsvScan { in_quotes: true, ..state };
        assert(input.subrange(p + 1, p + 1 + d.len()) =~= d) by {
            assert forall|j: int| 0 <= j < d.len() implies input.subrange(p + 1, p + 1 + d.len())[j]
                == d[j] by {
                assert(input[p + 1 + j] == e[1 + j]);
            }
        }
        lemma_quoted_body(input, p + 1, text, text.len() as int, opened);
        assert(text.subrange(0, text.len() as int) =~= text);
        let closing = p + 1 + d.len();
        assert(input[closing] == e[1 + d.len() as int]);
        assert(input[closing] == '"');
        assert(closing + 1 == p + e.len());
        assert(input[closing + 1] != '"');
        assert(state.field + text =~= text);
    } else {
        assert(e == text);
        lemma_no_line_feeds(text);
        assert forall|j: int| p <= j < p + text.len() implies !special(#[trigger] input[j]) by {
            assert(input[j] == text[j - p]);
        }
        lemma_unquoted_run(input, p, text.len() as int, state);
        assert(input.subrange(p, p + text.len()) == text);
        assert(state.field + text =~= text);
    }
}

proof fn lemma_joined_last(fields: Seq<Seq<char>>)
    requires
        fields.len() >= 2,
    ensures
        joined(fields) == joined(fields.drop_last()) + seq![','] + fields.last(),
{
}

proof fn lemma_fields(input: Seq<char>, p: int, fields: Seq<Seq<char>>, state: CsvScan)
    requires
        0 <= p,
        fields.len() >= 1,
        !state.in_quotes,
        state.field.len() == 0,
        p + joined(fields.map_values(|field: Seq<char>| escaped_field(field))).len() < input.len(),
        input.subrange(p, p + joined(fields.map_values(|field: Seq<char>| escaped_field(field))).len())
            == joined(fields.map_values(|field: Seq<char>| escaped_field(field))),
        input[p + joined(fields.map_values(|field: Seq<char>| escaped_field(field))).len()] == ','
            || input[p + joined(fields.map_values(|field: Seq<char>| escaped_field(field))).len()]
            == '\n',
    ensures
        csv_scan(input, p, state) == csv_scan(
            input,
            p + joined(fields.map_values(|field: Seq<char>| escaped_field(field))).len(),
            CsvScan {
                row: state.row + fields.drop_last(),
                field: fields.last(),
                line: state.line + fields_line_feeds(fields),
                ..state
            },
        ),
    decreases fields.len(),
{
    let escaped = fields.map_values(|field: Seq<char>| escaped_field(field));
    if fields.len() == 1 {
        assert(joined(escaped) == escaped[0]);
        assert(escaped[0] == escaped_field(fields[0]));
        lemma_field(input, p, fields[0], state);
        assert(fields.drop_last() =~= Seq::<Seq<char>>::empty());
        assert(state.row + fields.drop_last() =~= state.row);
        assert(fields_line_feeds(fields.drop_last()) == 0);
        assert(fields.last() == fields[0]);
    } else {
        let rest = fields.drop_last();
        let rest_escaped = rest.map_values(|field: Seq<char>| escaped_field(field));
        assert(escaped.drop_last() =~= rest_escaped);
        lemma_joined_last(escaped);
        let first_part = joined(rest_escaped);
        let last_part = escaped.last();
        assert(last_part == escaped_field(fields.last()));
        let whole = joined(escaped);
        assert(whole == first_part + seq![','] + last_part);
        let comma = p + first_part.len();
        assert(input.subrange(p, comma) =~= first_part) by {
            assert forall|j: int| 0 <= j < first_part.len() implies input.subrange(p, comma)[j]
                == first_part[j] by {
                assert(input[p + j] == whole[j]);
            }
        }
        assert(input[comma] == whole[first_part.len() as int]);
        assert(input[comma] == ',');
        lemma_fields(input, p, rest, state);
        let after_rest = CsvScan {
            row: state.row + rest.drop_last(),
            field: rest.last(),
            line: state.line + fields_line_feeds(rest),
            ..state
        };
        let after_comma = CsvScan {
            row: after_rest.row.push(after_rest.field),
            field: Seq::empty(),
            ..after_rest
        };
        assert(csv_scan(input, comma, after_rest) == csv_scan(input, comma + 1, after_comma));
        let start_last = comma + 1;
        assert(input.subrange(start_last, start_last + last_part.len()) =~= last_part) by {
            assert forall|j: int| 0 <= j < last_part.len() implies input.subrange(
                start_last,
                start_last + last_part.len(),
            )[j] == last_part[j] by {
                assert(input[start_last + j] == whole[first_part.len() + 1 + j]);
            }
        }
        assert(start_last + last_part.len() == p + whole.len());
        lemma_field(input, start_last, fields.last(), after_comma);
        assert(after_rest.row.push(after_rest.field) =~= state.row + fields.drop_last()) by {
            assert(rest.drop_last().push(rest.last()) =~= rest);
        }
    }
}

proof fn lemma_record(input: Seq<char>, p: int, fields: Seq<Seq<char>>, state: CsvScan)
    requires
        0 <= p,
        fields.len() >= 1,
        !state.in_quotes,
        state.field.len() == 0,
        state.row.len() == 0,
        p + csv_record(fields).len() <= input.len(),
        input.subrange(p, p + csv_record(fields).len()) == csv_record(fields),
    ensures
        csv_scan(input, p, state) == csv_scan(
            input,
            p + csv_record(fields).len(),
            CsvScan {
                rows: state.rows.push((state.row_line, fields)),
                row: Seq::empty(),
                field: Seq::empty(),
                in_quotes: false,
                line: state.line + fields_line_feeds(fields) + 1,
                row_line: state.line + fields_line_feeds(fields) + 1,
            },
        ),
{
    let escaped = fields.map_values(|field: Seq<char>| escaped_field(field));
    let body = joined(escaped);
    let record = csv_record(fields);
    assert(record == body + seq!['\n']);
    let end = p + body.len();
    assert(input.subrange(p, end) =~= body) by {
        assert forall|j: int| 0 <= j < body.len() implies input.subrange(p, end)[j] == body[j] by {
            assert(input[p + j] == record[j]);
        }
    }
    assert(input[end] == record[body.len() as int]);
    assert(input[end] == '\n');
    lemma_fields(input, p, fields, state);
    let after = CsvScan {
        row: state.row + fields.drop_last(),
        field: fields.last(),
        line: state.line + fields_line_feeds(fields),
        ..state
    };
    assert(after.row.push(after.field) =~= fields) by {
        assert(state.row + fields.drop_last() =~= fields.drop_last());
        assert(fields.drop_last().push(fields.last()) =~= fields);
    }
}

proof fn lemma_text_prefix(records: Seq<Seq<Seq<char>>>, k: int)
    requires
        0 <= k <= records.len(),
    ensures
        csv_text(records.subrange(0, k)).len() <= csv_text(records).len(),
        csv_text(records).subrange(0, csv_text(records.subrange(0, k)).len() as int) == csv_text(
            records.subrange(0, k),
        ),
    decreases records.len(),
{
    if k == records.len() {
        assert(records.subrange(0, k) =~= records);
        assert(csv_text(records).subrange(0, csv_text(records).len() as int) =~= csv_text(records));
    } else {
        let rest = records.drop_last();
        assert(rest.subrange(0, k) =~= records.subrange(0, k));
        lemma_text_prefix(rest, k);
        let n = csv_text(records.subrange(0, k)).len() as int;
        assert(csv_text(records) == csv_text(rest) + csv_record(records.last()));
        assert(csv_text(records).subrange(0, n) =~= csv_text(rest).subrange(0, n));
    }
}

proof fn lemma_records(input: Seq<char>, records: Seq<Seq<Seq<char>>>)
    requires
        forall|i: int| 0 <= i < records.len() ==> (#[trigger] records[i]).len() > 0,
        csv_text(records).len() <= input.len(),
        input.subrange(0, csv_text(records).len() as int) == csv_text(records),
    ensures
        csv_scan(input, 0, csv_start()) == csv_scan(
            input,
            csv_text(records).len() as int,
            state_after(records, csv_start()),
        ),
        !state_after(records, csv_start()).in_quotes,
        state_after(records, csv_start()).row.len() == 0,
        state_after(records, csv_start()).field.len() == 0,
        state_after(records, csv_start()).row_line == state_after(records, csv_start()).line,
        rows_fields(state_after(records, csv_start()).rows) == records,
    decreases records.len(),
{
    if records.len() == 0 {
        assert(rows_fields(csv_start().rows) =~= records);
    } else {
        let rest = records.drop_last();
        lemma_text_prefix(records, rest.len() as int);
        assert(records.subrange(0, rest.len() as int) =~= rest);
        let n = csv_text(rest).len() as int;
        let whole = csv_text(records);
        assert(whole == csv_text(rest) + csv_record(records.last()));
        assert(input.subrange(0, n) =~= csv_text(rest)) by {
            assert forall|j: int| 0 <= j < n implies input.subrange(0, n)[j] == csv_text(rest)[j] by {
                assert(input[j] == whole[j]);
            }
        }
        assert forall|i: int| 0 <= i < rest.len() implies (#[trigger] rest[i]).len() > 0 by {
            assert(rest[i] == records[i]);
        }
        lemma_records(input, rest);
        let record = csv_record(records.last());
        assert(input.subrange(n, n + record.len()) =~= record) by {
            assert forall|j: int| 0 <= j < record.len() implies input.subrange(n, n + record.len())[j]
                == record[j] by {
                assert(input[n + j] == whole[n + j]);
            }
        }
        assert(records.last() == records[records.len() - 1]);
        lemma_record(input, n, records.last(), state_after(rest, csv_start()));
        let before = state_after(rest, csv_start());
        assert(rows_fields(state_after(records, csv_start()).rows) =~= rows_fields(before.rows).push(
            records.last(),
        ));
        assert(rest.push(records.last()) =~= records);
    }
}

proof fn lemma_line_feeds_concat(a: Seq<char>, b: Seq<char>)
    ensures
        line_feeds(a + b) == line_feeds(a) + line_feeds(b),
    decreases b.len(),
{
    if b.len() == 0 {
        assert(a + b =~= a);
    } else {
        lemma_line_feeds_concat(a, b.drop_last());
        assert((a + b).drop_last() =~= a + b.drop_last());
        assert((a + b).last() == b.last());
    }
}

proof fn lemma_line_feeds_doubled(text: Seq<char>)
    ensures
        line_feeds(doubled_quotes(text)) == line_feeds(text),
    decreases text.len(),
{
    if text.len() > 0 {
        let rest = doubled_quotes(text.drop_last());
        lemma_line_feeds_doubled(text.drop_last());
        if text.last() == '"' {
            lemma_line_feeds_concat(rest, seq!['"', '"']);
            reveal_with_fuel(line_feeds, 3);
            assert(seq!['"', '"'].drop_last() =~= seq!['"']);
            assert(seq!['"'].drop_last() =~= Seq::<char>::empty());
        } else {
            assert(rest.push(text.last()).drop_last() =~= rest);
        }
    }
}

proof fn lemma_line_feeds_escaped(text: Seq<char>)
    ensures
        line_feeds(escaped_field(text)) == line_feeds(text),
{
    if needs_quotes(text) {
        lemma_line_feeds_doubled(text);
        lemma_line_feeds_concat(seq!['"'], doubled_quotes(text));
        lemma_line_feeds_concat(seq!['"'] + doubled_quotes(text), seq!['"']);
        reveal_with_fuel(line_feeds, 2);
        assert(seq!['"'].drop_last() =~= Seq::<char>::empty());
    }
}

proof fn lemma_line_feeds_joined(fields: Seq<Seq<char>>)
    ensures
        line_feeds(joined(fields.map_values(|field: Seq<char>| escaped_field(field)))) == fields_line_feeds(
            fields,
        ),
    decreases fields.len(),
{
    let escaped = fields.map_values(|field: Seq<char>| escaped_field(field));
    if fields.len() == 0 {
    } else if fields.len() == 1 {
        lemma_line_feeds_escaped(fields[0]);
        assert(escaped[0] == escaped_field(fields[0]));
        assert(joined(escaped) == escaped[0]);
        assert(fields_line_feeds(fields.drop_last()) == 0);
        assert(fields.last() == fields[0]);
    } else {
        let rest = fields.drop_last();
        assert(escaped.drop_last() =~= rest.map_values(|field: Seq<char>| escaped_field(field)));
        lemma_line_feeds_joined(rest);
        lemma_line_feeds_escaped(fields.last());
        let head = joined(escaped.drop_last());
        lemma_line_feeds_concat(head, seq![',']);
        lemma_line_feeds_concat(head + seq![','], escaped.last());
        reveal_with_fuel(line_feeds, 2);
        assert(seq![','].drop_last() =~= Seq::<char>::empty());
        assert(line_feeds(seq![',']) == 0);
        assert(escaped.last() == escaped_field(fields.last()));
        assert(joined(escaped) == head + seq![','] + escaped.last());
    }
}

proof fn lemma_line_feeds_record(fields: Seq<Seq<char>>)
    ensures
        line_feeds(csv_record(fields)) == fields_line_feeds(fields) + 1,
{
    let body = joined(fields.map_values(|field: Seq<char>| escaped_field(field)));
    lemma_line_feeds_joined(fields);
    lemma_line_feeds_concat(body, seq!['\n']);
    reveal_with_fuel(line_feeds, 2);
    assert(seq!['\n'].drop_last() =~= Seq::<char>::empty());
}

proof fn lemma_row_lines(records: Seq<Seq<Seq<char>>>)
    ensures
        state_after(records, csv_start()).line == 1 + line_feeds(csv_text(records)),
        state_after(records, csv_start()).rows.len() == records.len(),
        forall|k: int|
            0 <= k < records.len() ==> (#[trigger] state_after(records, csv_start()).rows[k]).0 == 1
                + line_feeds(csv_text(records.subrange(0, k))),
    decreases records.len(),
{
    if records.len() == 0 {
        assert(csv_text(records) == Seq::<char>::empty());
    } else {
        let rest = records.drop_last();
        lemma_row_lines(rest);
        let before = state_after(rest, csv_start());
        let after = state_after(records, csv_start());
        lemma_line_feeds_record(records.last());
        lemma_line_feeds_concat(csv_text(rest), csv_record(records.last()));
        assert forall|k: int| 0 <= k < records.len() implies (#[trigger] after.rows[k]).0 == 1 + line_feeds(
            csv_text(records.subrange(0, k)),
        ) by {
            if k < rest.len() {
                assert(after.rows[k] == before.rows[k]);
                assert(records.subrange(0, k) =~= rest.subrange(0, k));
            } else {
                assert(records.subrange(0, k) =~= rest);
                assert(before.row_line == before.line) by {
                    if rest.len() > 0 {
                    }
                }
            }
        }
    }
}

/// Reading a CSV text back gives the records it was written from: every record with at
/// least one field comes back as one row with the same fields, whatever commas, quotes
/// and line breaks the fields hold, and each row is numbered by the line it starts on.
pub proof fn law_csv_records_read_back(records: Seq<Seq<Seq<char>>>)
    requires
        forall|i: int| 0 <= i < records.len() ==> (#[trigger] records[i]).len() > 0,
    ensures
        csv_rows(csv_text(records)) is Ok,
        rows_fields(csv_rows(csv_text(records))->Ok_0) == records,
        forall|k: int|
            0 <= k < records.len() ==> (#[trigger] csv_rows(csv_text(records))->Ok_0[k]).0 == 1 + line_feeds(
                csv_text(records.subrange(0, k)),
            ),
{
    let text = csv_text(records);
    assert(text.subrange(0, text.len() as int) =~= text);
    lemma_records(text, records);
    lemma_row_lines(records);
}

proof fn lemma_plain_text(text: Seq<char>)
    requires
        forall|j: int| 0 <= j < text.len() ==> !special(#[trigger] text[j]),
    ensures
        escaped_field(text) == text,
{
    if needs_quotes(text) {
        let i = choose|i: int|
            0 <= i < text.len() && (#[trigger] text[i] == ',' || text[i] == '"' || text[i] == '\n'
                || text[i] == '\r');
        assert(special(text[i]));
    }
}

proof fn lemma_header_is_plain()
    ensures
        native_header().map_values(|field: Seq<char>| escaped_field(field)) == native_header(),
{
    reveal_strlit("account_id");
    reveal_strlit("kind");
    reveal_strlit("amount_minor");
    reveal_strlit("currency");
    reveal_strlit("occurred_at");
    reveal_strlit("description");
    reveal_strlit("category");
    let header = native_header();
    assert forall|i: int| 0 <= i < header.len() implies escaped_field(#[trigger] header[i]) == header[i] by {
        lemma_plain_text(header[i]);
    }
    assert(header.map_values(|field: Seq<char>| escaped_field(field)) =~= header);
}

proof fn lemma_export_text_is_csv(transactions: Seq<TransactionView>)
    ensures
        csv_text(seq![native_header()] + transactions.map_values(|t: TransactionView| export_fields(t)))
            == csv_record(native_header()) + export_lines(transactions),
    decreases transactions.len(),
{
    let records = seq![native_header()] + transactions.map_values(|t: TransactionView| export_fields(t));
    if transactions.len() == 0 {
        assert(records =~= seq![native_header()]);
        assert(records.drop_last() =~= Seq::<Seq<Seq<char>>>::empty());
        assert(records.last() == native_header());
        assert(csv_text(records.drop_last()) == Seq::<char>::empty());
        assert(export_lines(transactions) == Seq::<char>::empty());
        assert(csv_text(records) =~= csv_record(native_header()) + export_lines(transactions));
    } else {
        let rest = transactions.drop_last();
        lemma_export_text_is_csv(rest);
        assert(records.drop_last() =~= seq![native_header()] + rest.map_values(
            |t: TransactionView| export_fields(t),
        ));
        assert(records.last() == export_fields(transactions.last()));
        assert(csv_record(export_fields(transactions.last())) == export_line(transactions.last()));
        assert(csv_text(records) =~= csv_record(native_header()) + export_lines(transactions));
    }
}

/// An exported file reads back as its header followed by the fields of each exported
/// transaction, in order, whatever the descriptions hold.
pub proof fn law_export_reads_back(transactions: Seq<TransactionView>)
    ensures
        csv_rows(export_text(transactions)) is Ok,
        rows_fields(csv_rows(export_text(transactions))->Ok_0) == seq![native_header()]
            + transactions.map_values(|t: TransactionView| export_fields(t)),
{
    let records = seq![native_header()] + transactions.map_values(|t: TransactionView| export_fields(t));
    lemma_header_is_plain();
    lemma_export_text_is_csv(transactions);
    assert(csv_record(native_header()) == joined(native_header()) + seq!['\n']);
    assert(export_text(transactions) == csv_text(records));
    assert forall|i: int| 0 <= i < records.len() implies (#[trigger] records[i]).len() > 0 by {
        if i > 0 {
            assert(records[i] == export_fields(transactions[i - 1]));
        }
    }
    law_csv_records_read_back(records);
}

} // verus!
