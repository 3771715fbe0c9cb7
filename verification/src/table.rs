//! The tabular writer: a buffer of records as a comma-separated table.
//!
//! A table is a header line that names the columns, then one line per record
//! in the order of the buffer. Every call lays out the whole buffer, so the
//! table always shows the full run so far.
//!
//! A line is written by `csv`; what it writes is spelled out in
//! [`crate::format`]. How the lines are made from records and put together
//! is decided and proved here.

use vstd::prelude::*;
use vstd::utf8::{decode_utf8, encode_utf8_decode_utf8};
use crate::decimal::{decimal, lemma_decimal_reads_back, to_decimal};
use crate::format::{csv_record, csv_record_bytes, field_bytes, lemma_read_back, read_table};
use crate::metric::{CPUMetric, Temperature};

verus! {

/// `csv::Writer::write_record` on a fresh `csv::Writer::from_writer` over an
/// empty vector, and `csv::Writer::into_inner` for what was written: the
/// line of one record.
///
/// Trusted: with the configuration that `csv` starts from, the line is the
/// one that [`csv_record_bytes`] spells out. `csv` separates with a comma
/// and ends with a line feed; it quotes a field that holds a comma, a
/// quote, a carriage return or a line feed, and doubles the quotes in it;
/// it writes a pair of quotes where it has written nothing else of a
/// record. Neither call can fail here: the number of fields of a first
/// record is compared with nothing, and a vector takes every write.
#[verifier::external_body]
fn csv_line(fields: &Vec<String>) -> (line: Vec<u8>)
    ensures
        line@ == csv_record_bytes(fields.deep_view()),
{
    let mut writer = csv::Writer::from_writer(Vec::new());
    writer.write_record(fields).expect("a first record into memory");
    writer.into_inner().expect("a flush into memory")
}

/// A kind of record that can be laid out as a table row.
pub trait Record {
    /// The names of the columns, in the order of the fields.
    spec fn columns() -> Seq<Seq<char>>;

    /// The fields of this record as text, in the order of the columns.
    spec fn cells(&self) -> Seq<Seq<char>>;

    /// The names of the columns, in the order of the fields.
    fn header() -> (names: Vec<String>)
        ensures
            names.deep_view() == Self::columns(),
    ;

    /// The fields of this record as text, in the order of the columns.
    fn fields(&self) -> (cells: Vec<String>)
        ensures
            cells.deep_view() == self.cells(),
    ;
}

impl Record for CPUMetric {
    open spec fn columns() -> Seq<Seq<char>> {
        seq!["timestamp"@, "thread_label"@, "utilization"@, "frequency"@]
    }

    open spec fn cells(&self) -> Seq<Seq<char>> {
        seq![
            self.timestamp@,
            self.thread_label@,
            self.utilization@,
            decimal(self.frequency as nat),
        ]
    }

    fn header() -> (names: Vec<String>) {
        let mut names: Vec<String> = Vec::new();
        names.push("timestamp".to_owned());
        names.push("thread_label".to_owned());
        names.push("utilization".to_owned());
        names.push("frequency".to_owned());
        assert(names.deep_view() =~= Self::columns());
        names
    }

    fn fields(&self) -> (cells: Vec<String>) {
        let mut cells: Vec<String> = Vec::new();
        cells.push(self.timestamp.clone());
        cells.push(self.thread_label.clone());
        cells.push(self.utilization.clone());
        cells.push(to_decimal(self.frequency));
        assert(cells.deep_view() =~= self.cells());
        cells
    }
}

impl Record for Temperature {
    open spec fn columns() -> Seq<Seq<char>> {
        seq!["timestamp"@, "label"@, "temperature"@]
    }

    open spec fn cells(&self) -> Seq<Seq<char>> {
        seq![self.timestamp@, self.label@, self.temperature@]
    }

    fn header() -> (names: Vec<String>) {
        let mut names: Vec<String> = Vec::new();
        names.push("timestamp".to_owned());
        names.push("label".to_owned());
        names.push("temperature".to_owned());
        assert(names.deep_view() =~= Self::columns());
        names
    }

    fn fields(&self) -> (cells: Vec<String>) {
        let mut cells: Vec<String> = Vec::new();
        cells.push(self.timestamp.clone());
        cells.push(self.label.clone());
        cells.push(self.temperature.clone());
        assert(cells.deep_view() =~= self.cells());
        cells
    }
}

/// The rows of a buffer: the fields of each record as text, in the order of
/// the buffer.
pub open spec fn table_rows<T: Record>(list: Seq<T>) -> Seq<Seq<Seq<char>>> {
    list.map_values(|record: T| record.cells())
}

/// The line of each row, in the order of the rows.
pub open spec fn csv_lines(rows: Seq<Seq<Seq<char>>>) -> Seq<Seq<u8>> {
    rows.map_values(|row: Seq<Seq<char>>| csv_record_bytes(row))
}

/// The table with this header and these rows: the line of the header, then
/// the line of each row in order, and nothing else.
pub open spec fn csv_table(header: Seq<Seq<char>>, rows: Seq<Seq<Seq<char>>>) -> Seq<u8> {
    csv_record_bytes(header) + csv_lines(rows).flatten()
}

/// The content of each line, in the order of the lines.
pub open spec fn line_views(lines: Seq<Vec<u8>>) -> Seq<Seq<u8>> {
    lines.map_values(|line: Vec<u8>| line@)
}

/// Puts the lines of a table together: the header line, then every row
/// line in order, with nothing added between or after them.
pub fn join_lines(header: &Vec<u8>, rows: &Vec<Vec<u8>>) -> (table: Vec<u8>)
    ensures
        table@ == header@ + line_views(rows@).flatten(),
{
    let mut table: Vec<u8> = Vec::new();
    table.extend_from_slice(header.as_slice());
    assert(table@ =~= header@);
    let mut at: usize = 0;
    while at < rows.len()
        invariant
            at <= rows.len(),
            table@ == header@ + line_views(rows@.take(at as int)).flatten(),
        decreases rows.len() - at,
    {
        let ghost before = table@;
        let ghost seen = rows@.take(at as int);
        table.extend_from_slice(rows[at].as_slice());
        proof {
            assert(table@ =~= before + rows[at as int]@);
            rows@.lemma_take_succ_push(at as int);
            seen.lemma_push_map_commute(|line: Vec<u8>| line@, rows[at as int]);
            line_views(seen).lemma_flatten_push(rows[at as int]@);
        }
        at += 1;
    }
    proof {
        rows@.lemma_take_len();
    }
    table
}

/// Lays out a buffer as a table: a header line with the column names of the
/// record kind, then one line per record in the order of the buffer.
///
/// The result is the whole content of the file, for every call anew; an
/// empty buffer gives the header line alone.
pub fn dump_csv<T: Record>(list: &Vec<T>) -> (table: Vec<u8>)
    ensures
        table@ == csv_table(T::columns(), table_rows(list@)),
{
    let header = csv_line(&T::header());
    let ghost to_cells = |record: T| record.cells();
    let ghost to_line = |row: Seq<Seq<char>>| csv_record_bytes(row);
    let mut lines: Vec<Vec<u8>> = Vec::new();
    let mut at: usize = 0;
    while at < list.len()
        invariant
            at <= list.len(),
            line_views(lines@) == list@.take(at as int).map_values(to_cells).map_values(to_line),
            to_cells == |record: T| record.cells(),
            to_line == |row: Seq<Seq<char>>| csv_record_bytes(row),
        decreases list.len() - at,
    {
        let ghost before = lines@;
        let ghost seen = list@.take(at as int);
        let line = csv_line(&list[at].fields());
        lines.push(line);
        proof {
            before.lemma_push_map_commute(|line: Vec<u8>| line@, line);
            list@.lemma_take_succ_push(at as int);
            seen.lemma_push_map_commute(to_cells, list@[at as int]);
            seen.map_values(to_cells).lemma_push_map_commute(to_line, list@[at as int].cells());
        }
        at += 1;
    }
    proof {
        list@.lemma_take_len();
    }
    join_lines(&header, &lines)
}

/// The fields of a CPU sample as text keep all of it: two samples with the
/// same fields are the same sample, value for value.
pub proof fn lemma_cpu_cells_keep_the_sample(first: CPUMetric, second: CPUMetric)
    requires
        first.cells() == second.cells(),
    ensures
        first@ == second@,
{
    assert(first.cells()[0] == second.cells()[0]);
    assert(first.cells()[1] == second.cells()[1]);
    assert(first.cells()[2] == second.cells()[2]);
    assert(first.cells()[3] == second.cells()[3]);
    lemma_decimal_reads_back(first.frequency as nat);
    lemma_decimal_reads_back(second.frequency as nat);
}

/// The fields of a temperature sample as text keep all of it: two samples
/// with the same fields are the same sample, value for value.
pub proof fn lemma_temperature_cells_keep_the_sample(first: Temperature, second: Temperature)
    requires
        first.cells() == second.cells(),
    ensures
        first@ == second@,
{
    assert(first.cells()[0] == second.cells()[0]);
    assert(first.cells()[1] == second.cells()[1]);
    assert(first.cells()[2] == second.cells()[2]);
}

/// Laying out is repeatable: the table depends on nothing but the kind of
/// the records and their fields. Two buffers that hold the same records,
/// field by field and in the same order, give the same table, byte for
/// byte; so does laying out one buffer twice.
pub proof fn lemma_dump_repeatable<T: Record>(first: Seq<T>, second: Seq<T>)
    requires
        first.len() == second.len(),
        forall|i: int| 0 <= i < first.len() ==> first[i].cells() == second[i].cells(),
    ensures
        csv_table(T::columns(), table_rows(first)) == csv_table(T::columns(), table_rows(second)),
{
    assert(table_rows(first) =~= table_rows(second));
}

/// The table of a buffer that has grown begins with the table it had
/// before, and goes on with the lines of the records that were added.
pub proof fn lemma_table_grows<T: Record>(before: Seq<T>, added: Seq<T>)
    ensures
        csv_table(T::columns(), table_rows(before + added)) == csv_table(
            T::columns(),
            table_rows(before),
        ) + csv_lines(table_rows(added)).flatten(),
        csv_table(T::columns(), table_rows(Seq::<T>::empty())) == csv_record_bytes(T::columns()),
{
    let header = csv_record_bytes(T::columns());
    let old_lines = csv_lines(table_rows(before));
    let new_lines = csv_lines(table_rows(added));
    assert(csv_lines(table_rows(before + added)) =~= old_lines + new_lines);
    vstd::seq_lib::lemma_flatten_concat(old_lines, new_lines);
    assert(header + (old_lines.flatten() + new_lines.flatten()) =~= (header + old_lines.flatten())
        + new_lines.flatten());
    assert(csv_lines(table_rows(Seq::<T>::empty())) =~= Seq::<Seq<u8>>::empty());
    assert(header + Seq::<Seq<u8>>::empty().flatten() =~= header);
}

/// The records of a table as text, each with its fields, as a reader finds
/// them that goes through the bytes once and takes each field as UTF-8.
pub open spec fn read_csv(table: Seq<u8>) -> Seq<Seq<Seq<char>>> {
    read_table(table).map_values(
        |record: Seq<Seq<u8>>| record.map_values(|field: Seq<u8>| decode_utf8(field)),
    )
}

/// Writing, then reading. The table of a header and rows that have at
/// least one field each is read back as the header and then the rows: one
/// record per row, in the order of the rows, each with the fields of its
/// row, character for character.
pub proof fn lemma_table_reads_back(header: Seq<Seq<char>>, rows: Seq<Seq<Seq<char>>>)
    requires
        header.len() >= 1,
        forall|i: int| 0 <= i < rows.len() ==> (#[trigger] rows[i]).len() >= 1,
    ensures
        read_csv(csv_table(header, rows)) == seq![header] + rows,
{
    let text = seq![header] + rows;
    let to_bytes = |fields: Seq<Seq<char>>| field_bytes(fields);
    let to_line = |fields: Seq<Seq<u8>>| csv_record(fields);
    let records = text.map_values(to_bytes);
    let lines = records.map_values(to_line);
    assert(lines.drop_first() =~= csv_lines(rows)) by {
        assert forall|i: int| 0 <= i < rows.len() implies lines.drop_first()[i] == csv_lines(
            rows,
        )[i] by {
            assert(text[i + 1] == rows[i]);
        }
    }
    assert(lines[0] == csv_record_bytes(header));
    assert(lines.flatten() == csv_table(header, rows));
    assert forall|i: int| 0 <= i < records.len() implies (#[trigger] records[i]).len() >= 1 by {
        if i > 0 {
            assert(text[i] == rows[i - 1]);
        }
    }
    lemma_read_back(records);
    let read = read_csv(csv_table(header, rows));
    assert(read.len() == text.len());
    assert forall|i: int| 0 <= i < text.len() implies read[i] == text[i] by {
        assert(read[i].len() == text[i].len());
        assert forall|j: int| 0 <= j < text[i].len() implies read[i][j] == text[i][j] by {
            encode_utf8_decode_utf8(text[i][j]);
        }
        assert(read[i] =~= text[i]);
    }
    assert(read =~= text);
}

/// Writing, then reading, for CPU samples. The table of a buffer is read
/// back as the header and one record for each sample, in the order of the
/// buffer, with the fields of that sample; and those fields are the fields
/// of no other sample.
pub proof fn lemma_cpu_table_reads_back(list: Seq<CPUMetric>)
    ensures
        read_csv(csv_table(CPUMetric::columns(), table_rows(list))) == seq![
            CPUMetric::columns(),
        ] + table_rows(list),
        table_rows(list).len() == list.len(),
        forall|i: int, other: CPUMetric|
            0 <= i < list.len() && #[trigger] table_rows(list)[i] == #[trigger] other.cells()
                ==> other@ == list[i]@,
{
    lemma_table_reads_back(CPUMetric::columns(), table_rows(list));
    assert forall|i: int, other: CPUMetric|
        0 <= i < list.len() && #[trigger] table_rows(list)[i] == #[trigger] other.cells() implies
        other@ == list[i]@ by {
        lemma_cpu_cells_keep_the_sample(other, list[i]);
    }
}

/// Writing, then reading, for temperature samples. The table of a buffer
/// is read back as the header and one record for each sample, in the order
/// of the buffer, with the fields of that sample; and those fields are the
/// fields of no other sample.
pub proof fn lemma_temperature_table_reads_back(list: Seq<Temperature>)
    ensures
        read_csv(csv_table(Temperature::columns(), table_rows(list))) == seq![
            Temperature::columns(),
        ] + table_rows(list),
        table_rows(list).len() == list.len(),
        forall|i: int, other: Temperature|
            0 <= i < list.len() && #[trigger] table_rows(list)[i] == #[trigger] other.cells()
                ==> other@ == list[i]@,
{
    lemma_table_reads_back(Temperature::columns(), table_rows(list));
    assert forall|i: int, other: Temperature|
        0 <= i < list.len() && #[trigger] table_rows(list)[i] == #[trigger] other.cells() implies
        other@ == list[i]@ by {
        lemma_temperature_cells_keep_the_sample(other, list[i]);
    }
}

} // verus!
