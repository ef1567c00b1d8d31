//! Reading a table of named columns from CSV text: the first row names the
//! columns, every further row holds one field per column.

use vstd::prelude::*;

verus! {

#[verifier::external_type_specification]
#[verifier::external_body]
pub struct ExCsvError(csv::Error);

/// The header fields and the records of the CSV text `text` as the `csv`
/// crate's default reader parses them, `None` when it reports an error.
pub uninterp spec fn csv_table(text: Seq<u8>) -> Option<(Seq<Seq<char>>, Seq<Seq<Seq<char>>>)>;

/// The text of each string.
pub open spec fn strings_view(v: Seq<String>) -> Seq<Seq<char>> {
    v.map_values(|s: String| s@)
}

/// The text of each field of each row.
pub open spec fn rows_view(v: Seq<Vec<String>>) -> Seq<Seq<Seq<char>>> {
    v.map_values(|r: Vec<String>| strings_view(r@))
}

/// Every record has one field per header.
pub open spec fn rectangular(headers: Seq<Seq<char>>, records: Seq<Seq<Seq<char>>>) -> bool {
    forall|i: int| 0 <= i < records.len() ==> (#[trigger] records[i]).len() == headers.len()
}

/// Record `k` is the first whose number of fields differs from the number
/// of headers.
pub open spec fn first_unequal(headers: Seq<Seq<char>>, records: Seq<Seq<Seq<char>>>, k: int) -> bool {
    &&& 0 <= k < records.len()
    &&& records[k].len() != headers.len()
    &&& forall|i: int| 0 <= i < k ==> (#[trigger] records[i]).len() == headers.len()
}

/// Column `j` holds field `j` of every record, in the order of the records.
pub open spec fn columns_of(headers: Seq<Seq<char>>, records: Seq<Seq<Seq<char>>>) -> Seq<Seq<Seq<char>>> {
    Seq::new(headers.len(), |j: int| Seq::new(records.len(), |i: int| records[i][j]))
}

/// Why a CSV text gives no table.
#[derive(Debug)]
pub enum TableError {
    /// The CSV reader reported an error (malformed text, fields that are
    /// not UTF-8, or records of unequal length).
    Csv(csv::Error),
    /// Record `record` (counted from 0 after the header row) does not have
    /// one field per header.
    UnequalLengths { record: usize },
}

/// Parses `text` with `csv::Reader::from_reader` (first row as headers,
/// records of equal length), reading the header row with
/// `Reader::headers` and the records with `Reader::records`. Claimed: the
/// result is `Ok` exactly when `csv_table(text)` is `Some`, and then holds
/// the texts it names; which `csv::Error` comes back is not claimed.
#[verifier::external_body]
fn read_csv_table(text: &[u8]) -> (r: Result<(Vec<String>, Vec<Vec<String>>), csv::Error>)
    ensures
        r is Ok <==> csv_table(text@) is Some,
        r matches Ok(t) ==> strings_view(t.0@) == csv_table(text@).unwrap().0 && rows_view(t.1@)
            == csv_table(text@).unwrap().1,
{
    let mut reader = csv::Reader::from_reader(text);
    let headers: Vec<String> = reader.headers()?.iter().map(String::from).collect();
    let records: Result<Vec<Vec<String>>, csv::Error> =
        reader.records().map(|r| r.map(|rec| rec.iter().map(String::from).collect())).collect();
    Ok((headers, records?))
}

/// The header fields of the CSV text `text` and its columns: column `j`
/// holds field `j` of every record in order, so header `j` names column
/// `j`, and header 0 names the column of the principal variable.
pub fn csv_columns(text: &[u8]) -> (r: Result<(Vec<String>, Vec<Vec<String>>), TableError>)
    ensures
        (match csv_table(text@) {
            None => r matches Err(TableError::Csv(_)),
            Some(t) => if rectangular(t.0, t.1) {
                r matches Ok(c) && strings_view(c.0@) == t.0 && rows_view(c.1@) == columns_of(t.0, t.1)
            } else {
                r matches Err(TableError::UnequalLengths { record }) && first_unequal(
                    t.0,
                    t.1,
                    record as int,
                )
            },
        }),
{
    let (headers, records) = match read_csv_table(text) {
        Ok(t) => t,
        Err(e) => {
            return Err(TableError::Csv(e));
        },
    };
    let ghost h = strings_view(headers@);
    let ghost rs = rows_view(records@);
    assert(csv_table(text@) == Some((h, rs)));
    let ncols = headers.len();
    let mut k: usize = 0;
    while k < records.len()
        invariant
            k <= records@.len(),
            ncols == headers@.len(),
            rs == rows_view(records@),
            h == strings_view(headers@),
            csv_table(text@) == Some((h, rs)),
            forall|i: int| 0 <= i < k ==> (#[trigger] rs[i]).len() == h.len(),
        decreases records@.len() - k,
    {
        assert(rs[k as int] == strings_view(records@[k as int]@));
        assert(rs[k as int].len() == records@[k as int]@.len());
        if records[k].len() != ncols {
            assert(!rectangular(h, rs) && first_unequal(h, rs, k as int));
            return Err(TableError::UnequalLengths { record: k });
        }
        k = k + 1;
    }
    let mut columns: Vec<Vec<String>> = Vec::new();
    let mut j: usize = 0;
    while j < ncols
        invariant
            j <= ncols,
            ncols == headers@.len(),
            rs == rows_view(records@),
            h == strings_view(headers@),
            csv_table(text@) == Some((h, rs)),
            rectangular(h, rs),
            columns@.len() == j,
            forall|c: int| 0 <= c < j ==> strings_view((#[trigger] columns@[c])@) == columns_of(h, rs)[c],
        decreases ncols - j,
    {
        let mut col: Vec<String> = Vec::new();
        let mut i: usize = 0;
        while i < records.len()
            invariant
                i <= records@.len(),
                j < ncols,
                ncols == headers@.len(),
                rs == rows_view(records@),
                h == strings_view(headers@),
                csv_table(text@) == Some((h, rs)),
                rectangular(h, rs),
                col@.len() == i,
                forall|m: int| 0 <= m < i ==> (#[trigger] col@[m])@ == rs[m][j as int],
            decreases records@.len() - i,
        {
            assert(rs[i as int] == strings_view(records@[i as int]@));
            assert(rs[i as int].len() == ncols);
            let field = records[i][j].clone();
            col.push(field);
            i = i + 1;
        }
        assert(strings_view(col@) =~= columns_of(h, rs)[j as int]);
        columns.push(col);
        j = j + 1;
    }
    assert(rows_view(columns@) =~= columns_of(h, rs));
    Ok((headers, columns))
}

/// The columns have one entry per record: there is a column for every
/// header, and entry `i` of column `j` is field `j` of record `i`.
pub proof fn lemma_columns_transpose(headers: Seq<Seq<char>>, records: Seq<Seq<Seq<char>>>)
    ensures
        columns_of(headers, records).len() == headers.len(),
        forall|j: int| 0 <= j < headers.len() ==> (#[trigger] columns_of(headers, records)[j]).len()
            == records.len(),
        forall|j: int, i: int|
            0 <= j < headers.len() && 0 <= i < records.len() ==> #[trigger] columns_of(headers, records)[j][i]
                == records[i][j],
{
}

} // verus!
