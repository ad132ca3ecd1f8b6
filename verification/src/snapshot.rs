//! Snapshots: the file that holds the quota rows of one group.
//!
//! A snapshot opens with two lines that are no data, the time it was taken
//! and a line that is thrown away, and goes on with comma-separated rows of
//! nine columns each, without a header row.

use vstd::prelude::*;
use vstd::slice::slice_subrange;
use vstd::string::StringExecFns;
use vstd::utf8::{decode_utf8, valid_utf8};
use crate::number::{count_of, parse_count};
use crate::record::{texts, QuotaRecord, RecordModel, COLUMNS};

verus! {

/// The byte that ends a line.
pub const LINE_FEED: u8 = 0x0a;

/// The directory that holds the snapshots.
pub const QUOTA_ROOT: &'static str = "/home/quotas";

/// What a snapshot's file name ends in.
pub const QUOTA_SUFFIX: &'static str = ".quota";

/// The length of the first line of `data`, its line feed included. Data
/// without a line feed is one line.
pub open spec fn line_len(data: Seq<u8>) -> nat
    decreases data.len(),
{
    if data.len() == 0 {
        0
    } else if data[0] == LINE_FEED {
        1
    } else {
        1 + line_len(data.skip(1))
    }
}

/// The first line of `data`, up to and including its line feed.
pub open spec fn first_line(data: Seq<u8>) -> Seq<u8> {
    data.take(line_len(data) as int)
}

/// What follows the first line of `data`.
pub open spec fn after_line(data: Seq<u8>) -> Seq<u8> {
    data.skip(line_len(data) as int)
}

/// The second line of `data`.
pub open spec fn second_line(data: Seq<u8>) -> Seq<u8> {
    first_line(after_line(data))
}

/// The rows of a snapshot: what follows its first two lines.
pub open spec fn body(data: Seq<u8>) -> Seq<u8> {
    after_line(after_line(data))
}

/// Finds where the first line of `data` ends.
pub fn line_end(data: &[u8]) -> (end: usize)
    ensures
        end == line_len(data@),
        end <= data@.len(),
{
    let mut i: usize = 0;
    proof {
        assert(data@.skip(0) =~= data@);
    }
    while i < data.len()
        invariant
            i <= data@.len(),
            line_len(data@) == i + line_len(data@.skip(i as int)),
        decreases data@.len() - i,
    {
        let ghost rest = data@.skip(i as int);
        proof {
            assert(rest[0] == data@[i as int]);
            assert(rest.skip(1) =~= data@.skip(i + 1));
        }
        if data[i] == LINE_FEED {
            return i + 1;
        }
        i = i + 1;
    }
    proof {
        assert(data@.skip(i as int).len() == 0);
    }
    i
}

/// Why a row gave no record.
#[derive(Clone, Copy, Debug, PartialEq, Eq, Structural)]
pub enum RowFault {
    /// The row could not be split into cells.
    Unreadable,
    /// The row does not have nine cells.
    Columns,
    /// The cell in this column, counted from zero, does not hold what the
    /// column asks for: text, a name, or a count.
    Cell(usize),
}

/// A row that gave no record.
#[derive(Clone, Copy, Debug, PartialEq, Eq, Structural)]
pub struct RowFailure {
    /// The row's place among the rows, counted from zero.
    pub row: usize,
    pub fault: RowFault,
}

/// Whether the cell in column `i` of a row of nine holds what the column
/// asks for. The filesystem is text and not empty; the two grace periods are
/// text; the six others are counts.
pub open spec fn cell_ok(cells: Seq<Seq<u8>>, i: int) -> bool {
    if i == 0 {
        cells[0].len() > 0 && valid_utf8(cells[0])
    } else if i == 4 || i == 8 {
        valid_utf8(cells[i])
    } else {
        count_of(cells[i]) is Some
    }
}

/// The first column from `i` on whose cell does not hold what it should.
pub open spec fn bad_cell_from(cells: Seq<Seq<u8>>, i: int) -> Option<int>
    decreases COLUMNS - i,
{
    if i >= COLUMNS {
        None
    } else if !cell_ok(cells, i) {
        Some(i)
    } else {
        bad_cell_from(cells, i + 1)
    }
}

/// The record that nine good cells hold.
pub open spec fn record_of(cells: Seq<Seq<u8>>) -> RecordModel {
    RecordModel {
        filesystem: decode_utf8(cells[0]),
        block_usage: count_of(cells[1])->0,
        block_soft: count_of(cells[2])->0,
        block_hard: count_of(cells[3])->0,
        block_grace: decode_utf8(cells[4]),
        inode_usage: count_of(cells[5])->0,
        inode_soft: count_of(cells[6])->0,
        inode_hard: count_of(cells[7])->0,
        inode_grace: decode_utf8(cells[8]),
    }
}

/// What a row of cells gives: the record it holds, or the first thing that
/// is wrong with it. The number of cells is looked at first, then the cells
/// from left to right.
pub open spec fn decode(cells: Seq<Seq<u8>>) -> Result<RecordModel, RowFault> {
    if cells.len() != COLUMNS {
        Err(RowFault::Columns)
    } else {
        match bad_cell_from(cells, 0) {
            Some(i) => Err(RowFault::Cell(i as usize)),
            None => Ok(record_of(cells)),
        }
    }
}

/// What a row gives, whether it could be split into cells or not.
pub open spec fn row_outcome(row: Option<Seq<Seq<u8>>>) -> Result<RecordModel, RowFault> {
    match row {
        Some(cells) => decode(cells),
        None => Err(RowFault::Unreadable),
    }
}

/// The bytes of a list of cells.
pub open spec fn cell_bytes(cells: Seq<Vec<u8>>) -> Seq<Seq<u8>> {
    Seq::new(cells.len(), |i: int| cells[i]@)
}

/// The model of what decoding a row returns.
pub open spec fn outcome_model(outcome: Result<QuotaRecord, RowFault>) -> Result<
    RecordModel,
    RowFault,
> {
    match outcome {
        Ok(record) => Ok(record@),
        Err(fault) => Err(fault),
    }
}

/// Turns bytes into text with `core::str::from_utf8`: the text that the
/// bytes encode where they are valid UTF-8, nothing where they are not.
#[verifier::external_body]
fn text_of(bytes: &[u8]) -> (text: Option<String>)
    ensures
        text is Some <==> valid_utf8(bytes@),
        text is Some ==> text->0@ == decode_utf8(bytes@),
{
    match core::str::from_utf8(bytes) {
        Ok(text) => Some(text.to_string()),
        Err(_) => None,
    }
}

/// Text that is not empty comes from bytes that are not empty.
proof fn lemma_decoded_not_empty(bytes: Seq<u8>)
    requires
        valid_utf8(bytes),
        bytes.len() > 0,
    ensures
        decode_utf8(bytes).len() > 0,
{
}

/// Reads the record that a row of cells holds.
///
/// A row gives a record where it has nine cells, the filesystem is text and
/// not empty, both grace periods are text and the six others are counts.
/// Otherwise the fault names what is wrong first: the number of cells, or
/// the leftmost cell that does not hold what its column asks for.
pub fn decode_row(cells: &Vec<Vec<u8>>) -> (outcome: Result<QuotaRecord, RowFault>)
    ensures
        outcome_model(outcome) == decode(cell_bytes(cells@)),
        outcome is Ok ==> outcome->Ok_0.wf(),
        outcome is Ok <==> cells@.len() == COLUMNS && forall|i: int|
            0 <= i < COLUMNS ==> cell_ok(cell_bytes(cells@), i),
{
    let ghost model = cell_bytes(cells@);
    proof {
        reveal_with_fuel(bad_cell_from, 10);
    }
    if cells.len() != COLUMNS {
        return Err(RowFault::Columns);
    }
    if cells[0].len() == 0 {
        return Err(RowFault::Cell(0));
    }
    let filesystem = match text_of(cells[0].as_slice()) {
        Some(text) => text,
        None => {
            return Err(RowFault::Cell(0));
        },
    };
    let block_usage: u64 = match parse_count(cells[1].as_slice()) {
        Some(count) => count,
        None => {
            return Err(RowFault::Cell(1));
        },
    };
    let block_soft: u64 = match parse_count(cells[2].as_slice()) {
        Some(count) => count,
        None => {
            return Err(RowFault::Cell(2));
        },
    };
    let block_hard: u64 = match parse_count(cells[3].as_slice()) {
        Some(count) => count,
        None => {
            return Err(RowFault::Cell(3));
        },
    };
    let block_grace = match text_of(cells[4].as_slice()) {
        Some(text) => text,
        None => {
            return Err(RowFault::Cell(4));
        },
    };
    let inode_usage: u64 = match parse_count(cells[5].as_slice()) {
        Some(count) => count,
        None => {
            return Err(RowFault::Cell(5));
        },
    };
    let inode_soft: u64 = match parse_count(cells[6].as_slice()) {
        Some(count) => count,
        None => {
            return Err(RowFault::Cell(6));
        },
    };
    let inode_hard: u64 = match parse_count(cells[7].as_slice()) {
        Some(count) => count,
        None => {
            return Err(RowFault::Cell(7));
        },
    };
    let inode_grace = match text_of(cells[8].as_slice()) {
        Some(text) => text,
        None => {
            return Err(RowFault::Cell(8));
        },
    };
    proof {
        lemma_decoded_not_empty(model[0]);
    }
    Ok(
        QuotaRecord {
            filesystem,
            block_usage,
            block_soft,
            block_hard,
            block_grace,
            inode_usage,
            inode_soft,
            inode_hard,
            inode_grace,
        },
    )
}

/// The rows that the `csv` crate reads from `data` with its usual comma,
/// quoting and line endings, no header row, and rows of any length: each
/// row as its cells, or nothing for a row that the reader gave up on.
pub uninterp spec fn csv_rows(data: Seq<u8>) -> Seq<Option<Seq<Seq<u8>>>>;

/// The models of a list of rows.
pub open spec fn row_models(rows: Seq<Option<Vec<Vec<u8>>>>) -> Seq<Option<Seq<Seq<u8>>>> {
    Seq::new(
        rows.len(),
        |i: int|
            match rows[i] {
                Some(cells) => Some(cell_bytes(cells@)),
                None => None,
            },
    )
}

/// Splits `data` into rows of cells with `csv::Reader::into_byte_records`,
/// on a reader built by `csv::ReaderBuilder` without a header row and
/// without a fixed row length. What comes back is what the reader yields,
/// row by row and cell by cell; which bytes make a cell is the reader's
/// business and is not stated here.
#[verifier::external_body]
fn read_rows(data: &[u8]) -> (rows: Vec<Option<Vec<Vec<u8>>>>)
    ensures
        row_models(rows@) == csv_rows(data@),
{
    csv::ReaderBuilder::new()
        .has_headers(false)
        .flexible(true)
        .from_reader(data)
        .into_byte_records()
        .map(|row| row.ok().map(|cells| cells.iter().map(|cell| cell.to_vec()).collect()))
        .collect()
}

/// The records of the rows that hold one, in the order of the rows.
pub open spec fn kept_records(rows: Seq<Option<Seq<Seq<u8>>>>) -> Seq<RecordModel>
    decreases rows.len(),
{
    if rows.len() == 0 {
        Seq::empty()
    } else {
        let before = kept_records(rows.drop_last());
        match row_outcome(rows.last()) {
            Ok(record) => before.push(record),
            Err(_) => before,
        }
    }
}

/// The rows that hold no record, each with its place and its fault, in the
/// order of the rows.
pub open spec fn row_failures(rows: Seq<Option<Seq<Seq<u8>>>>) -> Seq<RowFailure>
    decreases rows.len(),
{
    if rows.len() == 0 {
        Seq::empty()
    } else {
        let before = row_failures(rows.drop_last());
        match row_outcome(rows.last()) {
            Ok(_) => before,
            Err(fault) => before.push(RowFailure { row: (rows.len() - 1) as usize, fault }),
        }
    }
}

/// The display rows of a list of records.
pub open spec fn display_rows(records: Seq<RecordModel>) -> Seq<Seq<Seq<char>>> {
    Seq::new(records.len(), |i: int| records[i].cells())
}

/// What was read from one group's snapshot.
#[derive(Debug, Clone)]
pub struct GroupSnapshot {
    /// The snapshot's first line as it stands, line feed included.
    pub timestamp: String,
    /// One row of nine cells for each record, ready for display.
    pub rows: Vec<Vec<String>>,
    /// The records, in the order of their rows in the snapshot.
    pub records: Vec<QuotaRecord>,
    /// The rows that gave no record.
    pub failures: Vec<RowFailure>,
}

/// What a [`GroupSnapshot`] holds, as plain values.
pub struct SnapshotModel {
    pub timestamp: Seq<char>,
    pub rows: Seq<Seq<Seq<char>>>,
    pub records: Seq<RecordModel>,
    pub failures: Seq<RowFailure>,
}

/// The models of a list of records.
pub open spec fn record_models(records: Seq<QuotaRecord>) -> Seq<RecordModel> {
    Seq::new(records.len(), |i: int| records[i]@)
}

/// The texts of a list of display rows.
pub open spec fn row_texts(rows: Seq<Vec<String>>) -> Seq<Seq<Seq<char>>> {
    Seq::new(rows.len(), |i: int| texts(rows[i]@))
}

impl View for GroupSnapshot {
    type V = SnapshotModel;

    open spec fn view(&self) -> SnapshotModel {
        SnapshotModel {
            timestamp: self.timestamp@,
            rows: row_texts(self.rows@),
            records: record_models(self.records@),
            failures: self.failures@,
        }
    }
}

/// The snapshot that a time stamp and a list of rows make: a record and a
/// display row for every row that holds a record, a failure for every other.
pub open spec fn snapshot_of(
    timestamp: Seq<char>,
    rows: Seq<Option<Seq<Seq<u8>>>>,
) -> SnapshotModel {
    SnapshotModel {
        timestamp,
        rows: display_rows(kept_records(rows)),
        records: kept_records(rows),
        failures: row_failures(rows),
    }
}

/// Every row ends up as a record or as a failure, and every kept record
/// names its filesystem.
pub proof fn lemma_rows_accounted(rows: Seq<Option<Seq<Seq<u8>>>>)
    ensures
        kept_records(rows).len() + row_failures(rows).len() == rows.len(),
        forall|i: int| 0 <= i < kept_records(rows).len() ==> (#[trigger] kept_records(rows)[i]).wf(),
        forall|i: int|
            0 <= i < row_failures(rows).len() ==> (#[trigger] row_failures(rows)[i]).row
                < rows.len(),
    decreases rows.len(),
{
    if rows.len() > 0 {
        lemma_rows_accounted(rows.drop_last());
        reveal_with_fuel(bad_cell_from, 10);
        match rows.last() {
            Some(cells) => {
                if decode(cells) is Ok {
                    lemma_decoded_not_empty(cells[0]);
                }
            },
            None => {},
        }
    }
}

/// Builds a snapshot from its time stamp and its rows of cells.
///
/// A row that holds a record gives that record and its display row; any
/// other row gives a failure and nothing else, and the rows after it are
/// read all the same. Records, display rows and failures keep the order of
/// the rows.
pub fn assemble(timestamp: String, rows: &Vec<Option<Vec<Vec<u8>>>>) -> (snapshot: GroupSnapshot)
    ensures
        snapshot@ == snapshot_of(timestamp@, row_models(rows@)),
        snapshot.rows@.len() == snapshot.records@.len(),
        snapshot.records@.len() + snapshot.failures@.len() == rows@.len(),
        forall|i: int|
            0 <= i < snapshot.records@.len() ==> texts(#[trigger] snapshot.rows@[i]@)
                == snapshot.records@[i]@.cells(),
        forall|i: int| 0 <= i < snapshot.records@.len() ==> (#[trigger] snapshot.records@[i]).wf(),
{
    let ghost model = row_models(rows@);
    let mut display: Vec<Vec<String>> = Vec::new();
    let mut records: Vec<QuotaRecord> = Vec::new();
    let mut failures: Vec<RowFailure> = Vec::new();
    let mut i: usize = 0;
    while i < rows.len()
        invariant
            i <= rows@.len(),
            model == row_models(rows@),
            record_models(records@) == kept_records(model.take(i as int)),
            row_texts(display@) == display_rows(kept_records(model.take(i as int))),
            failures@ == row_failures(model.take(i as int)),
        decreases rows@.len() - i,
    {
        let ghost seen = model.take(i as int);
        let ghost next = model.take(i + 1);
        proof {
            assert(next.drop_last() =~= seen);
            assert(next.last() == model[i as int]);
        }
        let outcome = match &rows[i] {
            Some(cells) => decode_row(cells),
            None => Err(RowFault::Unreadable),
        };
        match outcome {
            Ok(record) => {
                let ghost shown = display@;
                let row = record.display_row();
                display.push(row);
                records.push(record);
                proof {
                    let kept = kept_records(seen);
                    assert(kept_records(next) == kept.push(record@));
                    assert(record_models(records@) =~= kept_records(next));
                    assert(row_texts(shown).len() == shown.len());
                    assert(display_rows(kept).len() == kept.len());
                    assert(display@.len() == kept.len() + 1);
                    assert forall|j: int| 0 <= j < display@.len() implies row_texts(display@)[j]
                        == display_rows(kept.push(record@))[j] by {
                        if j < shown.len() {
                            assert(row_texts(shown)[j] == display_rows(kept)[j]);
                            assert(display@[j] == shown[j]);
                        } else {
                            assert(display@[j] == row);
                        }
                    }
                    assert(row_texts(display@) =~= display_rows(kept_records(next)));
                }
            },
            Err(fault) => {
                failures.push(RowFailure { row: i, fault });
            },
        }
        i = i + 1;
    }
    proof {
        assert(model.take(i as int) =~= model);
        lemma_rows_accounted(model);
    }
    let snapshot = GroupSnapshot { timestamp, rows: display, records, failures };
    proof {
        assert(row_texts(snapshot.rows@).len() == snapshot.rows@.len());
        assert(record_models(snapshot.records@).len() == snapshot.records@.len());
        assert forall|j: int| 0 <= j < snapshot.records@.len() implies texts(
            #[trigger] snapshot.rows@[j]@,
        ) == snapshot.records@[j]@.cells() by {
            assert(row_texts(snapshot.rows@)[j] == display_rows(kept_records(model))[j]);
            assert(record_models(snapshot.records@)[j] == kept_records(model)[j]);
        }
        assert forall|j: int| 0 <= j < snapshot.records@.len() implies (
        #[trigger] snapshot.records@[j]).wf() by {
            assert(record_models(snapshot.records@)[j] == kept_records(model)[j]);
        }
        assert(row_texts(snapshot.rows@).len() == snapshot.rows@.len());
        assert(record_models(snapshot.records@).len() == snapshot.records@.len());
    }
    snapshot
}

/// Why a snapshot could not be read at all.
#[derive(Clone, Copy, Debug, PartialEq, Eq, Structural)]
pub enum LoadError {
    /// The first line, the time stamp, is not text.
    Timestamp,
    /// The second line, which is thrown away, is not text.
    Preamble,
}

/// What reading the bytes of a snapshot gives, over the rows that were
/// split from its body.
pub open spec fn load_outcome(data: Seq<u8>, rows: Seq<Option<Seq<Seq<u8>>>>) -> Result<
    SnapshotModel,
    LoadError,
> {
    if !valid_utf8(first_line(data)) {
        Err(LoadError::Timestamp)
    } else if !valid_utf8(second_line(data)) {
        Err(LoadError::Preamble)
    } else {
        Ok(snapshot_of(decode_utf8(first_line(data)), rows))
    }
}

/// The model of what loading returns.
pub open spec fn load_model(outcome: Result<GroupSnapshot, LoadError>) -> Result<
    SnapshotModel,
    LoadError,
> {
    match outcome {
        Ok(snapshot) => Ok(snapshot@),
        Err(error) => Err(error),
    }
}

/// Reads one group's snapshot from the bytes of its file.
///
/// The first line is the time stamp and is kept as it stands. The second
/// line is thrown away. Both must be text, or nothing is read. Every line
/// after them is a row: one that holds a record adds it to the snapshot, one
/// that does not is listed among the failures, and reading goes on.
pub fn load_record(data: &[u8]) -> (outcome: Result<GroupSnapshot, LoadError>)
    ensures
        load_model(outcome) == load_outcome(data@, csv_rows(body(data@))),
        outcome is Ok <==> valid_utf8(first_line(data@)) && valid_utf8(second_line(data@)),
        outcome is Ok ==> outcome->Ok_0.rows@.len() == outcome->Ok_0.records@.len(),
{
    let first_end = line_end(data);
    let first = slice_subrange(data, 0, first_end);
    let rest = slice_subrange(data, first_end, data.len());
    let second_end = line_end(rest);
    let second = slice_subrange(rest, 0, second_end);
    let rows_part = slice_subrange(rest, second_end, rest.len());
    proof {
        assert(first@ =~= first_line(data@));
        assert(rest@ =~= after_line(data@));
        assert(second@ =~= second_line(data@));
        assert(rows_part@ =~= body(data@));
    }
    let timestamp = match text_of(first) {
        Some(text) => text,
        None => {
            return Err(LoadError::Timestamp);
        },
    };
    if text_of(second).is_none() {
        return Err(LoadError::Preamble);
    }
    let rows = read_rows(rows_part);
    Ok(assemble(timestamp, &rows))
}

/// The path of the snapshot of `group`.
pub open spec fn path_of(group: Seq<char>) -> Seq<char> {
    QUOTA_ROOT@ + seq!['/'] + group + QUOTA_SUFFIX@
}

/// Names the file that holds the snapshot of `group`.
pub fn snapshot_path(group: &str) -> (path: String)
    ensures
        path@ == path_of(group@),
{
    let mut path = String::new();
    path.append(QUOTA_ROOT);
    path.append("/");
    path.append(group);
    path.append(QUOTA_SUFFIX);
    proof {
        reveal_strlit("/");
        assert(path@ =~= path_of(group@));
    }
    path
}

} // verus!
