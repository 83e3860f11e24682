use vstd::prelude::*;
use crate::error::PipelineError;

verus! {

pub const QUOTE: u8 = 0x22;
pub const COMMA: u8 = 0x2c;
pub const LINE_FEED: u8 = 0x0a;
pub const CARRIAGE_RETURN: u8 = 0x0d;

/// One bulk-copy call: the statement that opens it and the rows it streams.
pub struct CopyRequest {
    pub statement: String,
    pub payload: Vec<u8>,
}

/// What a left-to-right reading of CSV bytes has seen: whether it stands
/// inside quotes, and the field separators and line ends met outside quotes.
pub struct CsvScan {
    pub in_quotes: bool,
    pub separators: nat,
    pub line_ends: nat,
}

pub open spec fn scan(b: Seq<u8>) -> CsvScan
    decreases b.len(),
{
    if b.len() == 0 {
        CsvScan { in_quotes: false, separators: 0, line_ends: 0 }
    } else {
        let s = scan(b.drop_last());
        let c = b.last();
        if c == QUOTE {
            CsvScan { in_quotes: !s.in_quotes, ..s }
        } else if !s.in_quotes && c == COMMA {
            CsvScan { separators: s.separators + 1, ..s }
        } else if !s.in_quotes && (c == LINE_FEED || c == CARRIAGE_RETURN) {
            CsvScan { line_ends: s.line_ends + 1, ..s }
        } else {
            s
        }
    }
}

/// `b` is exactly one CSV record of `n` fields: it ends with a line feed,
/// before which every quote is closed, no line ends outside quotes, and
/// `n - 1` commas stand outside quotes.
pub open spec fn is_record_of(b: Seq<u8>, n: nat) -> bool {
    let s = scan(b.drop_last());
    &&& b.len() > 0
    &&& b.last() == LINE_FEED
    &&& !s.in_quotes
    &&& s.line_ends == 0
    &&& s.separators + 1 == n
}

/// Whether `record` is one CSV record with `n` fields.
pub fn check_record(record: &Vec<u8>, n: usize) -> (r: bool)
    ensures
        r == is_record_of(record@, n as nat),
{
    let len = record.len();
    if len == 0 || record[len - 1] != LINE_FEED {
        return false;
    }
    let ghost body = record@.drop_last();
    let mut in_quotes = false;
    let mut separators: usize = 0;
    let mut line_ends: usize = 0;
    for i in 0..len - 1
        invariant
            len == record@.len(),
            len > 0,
            body == record@.drop_last(),
            separators <= i,
            line_ends <= i,
            scan(body.subrange(0, i as int)) == (CsvScan {
                in_quotes,
                separators: separators as nat,
                line_ends: line_ends as nat,
            }),
    {
        let c = record[i];
        assert(body.subrange(0, i + 1).drop_last() == body.subrange(0, i as int));
        if c == QUOTE {
            in_quotes = !in_quotes;
        } else if !in_quotes && c == COMMA {
            separators = separators + 1;
        } else if !in_quotes && (c == LINE_FEED || c == CARRIAGE_RETURN) {
            line_ends = line_ends + 1;
        }
    }
    assert(body.subrange(0, (len - 1) as int) == body);
    !in_quotes && line_ends == 0 && separators as u64 + 1 == n as u64
}

/// `cols` joined with ", ".
pub open spec fn joined(cols: Seq<Seq<char>>) -> Seq<char>
    decreases cols.len(),
{
    if cols.len() == 0 {
        Seq::empty()
    } else if cols.len() == 1 {
        cols[0]
    } else {
        joined(cols.drop_last()) + ", "@ + cols.last()
    }
}

pub open spec fn column_names(columns: Seq<String>) -> Seq<Seq<char>> {
    columns.map_values(|c: String| c@)
}

/// The statement that opens a CSV bulk copy of `columns` into `table`.
pub open spec fn copy_statement_spec(table: Seq<char>, columns: Seq<String>) -> Seq<char> {
    "COPY "@ + table + " ("@ + joined(column_names(columns)) + ") FROM STDIN (FORMAT CSV)"@
}

/// The statement that opens a CSV bulk copy of `columns` into `table`.
pub fn copy_statement(table: &str, columns: &Vec<String>) -> (r: String)
    ensures
        r@ == copy_statement_spec(table@, columns@),
{
    let mut list = String::new();
    for i in 0..columns.len()
        invariant
            list@ == joined(column_names(columns@.subrange(0, i as int))),
    {
        proof {
            let prefix = columns@.subrange(0, i + 1);
            assert(column_names(prefix).drop_last() == column_names(columns@.subrange(0, i as int)));
            assert(column_names(prefix).last() == columns@[i as int]@);
        }
        if i > 0 {
            list.append(", ");
        }
        list.append(columns[i].as_str());
    }
    assert(columns@.subrange(0, columns@.len() as int) == columns@);
    let mut s = String::from_str("COPY ");
    s.append(table);
    s.append(" (");
    s.append(list.as_str());
    s.append(") FROM STDIN (FORMAT CSV)");
    s
}

/// The rows, one after another.
pub open spec fn concatenated(rows: Seq<Seq<u8>>) -> Seq<u8>
    decreases rows.len(),
{
    if rows.len() == 0 {
        Seq::empty()
    } else {
        concatenated(rows.drop_last()) + rows.last()
    }
}

pub open spec fn row_bytes(rows: Seq<Vec<u8>>) -> Seq<Seq<u8>> {
    rows.map_values(|r: Vec<u8>| r@)
}

/// Every row is one CSV record with one field per column.
pub open spec fn rows_match_columns(rows: Seq<Vec<u8>>, n: nat) -> bool {
    forall|k: int| 0 <= k < rows.len() ==> is_record_of(#[trigger] rows[k]@, n)
}

/// Plans the bulk load of encoded `rows` into `columns` of `table`. No rows
/// need no call to the store (`None`). A row that is not one CSV record of
/// one field per column fails the whole batch; otherwise the rows go out
/// together, in order, in one copy.
pub fn plan_bulk_load(table: &str, columns: &Vec<String>, rows: &Vec<Vec<u8>>) -> (r: Result<Option<CopyRequest>, PipelineError>)
    ensures
        rows@.len() == 0 ==> r matches Ok(None),
        rows@.len() > 0 ==> (r is Err <==> !rows_match_columns(rows@, columns@.len())),
        r is Err ==> r matches Err(PipelineError::Serialization),
        r matches Ok(Some(req)) ==> {
            &&& req.statement@ == copy_statement_spec(table@, columns@)
            &&& req.payload@ == concatenated(row_bytes(rows@))
        },
        r matches Ok(None) ==> rows@.len() == 0,
{
    if rows.len() == 0 {
        return Ok(None);
    }
    let mut payload: Vec<u8> = Vec::new();
    for i in 0..rows.len()
        invariant
            rows_match_columns(rows@.subrange(0, i as int), columns@.len()),
            payload@ == concatenated(row_bytes(rows@.subrange(0, i as int))),
    {
        if !check_record(&rows[i], columns.len()) {
            return Err(PipelineError::Serialization);
        }
        let mut copy = rows[i].clone();
        proof {
            let prefix = rows@.subrange(0, i + 1);
            assert(row_bytes(prefix).drop_last() == row_bytes(rows@.subrange(0, i as int)));
            assert(row_bytes(prefix).last() == rows@[i as int]@);
            assert(copy@ == rows@[i as int]@);
        }
        payload.append(&mut copy);
        proof {
            assert forall|k: int| 0 <= k < i + 1 implies is_record_of(#[trigger] rows@.subrange(0, i + 1)[k]@, columns@.len() as nat) by {
                if k < i {
                    assert(rows@.subrange(0, i + 1)[k] == rows@.subrange(0, i as int)[k]);
                }
            }
        }
    }
    assert(rows@.subrange(0, rows@.len() as int) == rows@);
    Ok(Some(CopyRequest { statement: copy_statement(table, columns), payload }))
}

} // verus!
