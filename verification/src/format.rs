//! The comma-separated format, byte for byte.
//!
//! A record is its fields, separated by commas and ended by a line feed.
//! A field that holds a comma, a quote, a carriage return or a line feed is
//! put in quotes, and every quote in it is written twice; any other field
//! is written as it is. A record that would come out as an empty line, which
//! is one with a single empty field, is written as a pair of quotes, so
//! that no line of a table is empty.

use vstd::prelude::*;
use vstd::utf8::encode_utf8;

verus! {

/// The separator of fields.
pub const COMMA: u8 = 0x2c;

/// The quote.
pub const QUOTE: u8 = 0x22;

/// The carriage return.
pub const CR: u8 = 0x0d;

/// The line feed, which ends a record.
pub const LF: u8 = 0x0a;

/// Whether a byte cannot stand in a field that is written without quotes.
pub open spec fn is_special(byte: u8) -> bool {
    byte == COMMA || byte == QUOTE || byte == CR || byte == LF
}

/// Whether a field has to be written in quotes.
pub open spec fn needs_quotes(field: Seq<u8>) -> bool {
    exists|i: int| 0 <= i < field.len() && is_special(#[trigger] field[i])
}

/// A field with every quote in it written twice.
pub open spec fn doubled(field: Seq<u8>) -> Seq<u8>
    decreases field.len(),
{
    if field.len() == 0 {
        Seq::empty()
    } else if field[0] == QUOTE {
        seq![QUOTE, QUOTE] + doubled(field.drop_first())
    } else {
        seq![field[0]] + doubled(field.drop_first())
    }
}

/// A field as it is written.
pub open spec fn csv_field(field: Seq<u8>) -> Seq<u8> {
    if needs_quotes(field) {
        seq![QUOTE] + doubled(field) + seq![QUOTE]
    } else {
        field
    }
}

/// The fields of a record as they are written, with a comma between each
/// two of them.
pub open spec fn csv_fields(fields: Seq<Seq<u8>>) -> Seq<u8>
    decreases fields.len(),
{
    if fields.len() == 0 {
        Seq::empty()
    } else if fields.len() == 1 {
        csv_field(fields[0])
    } else {
        csv_field(fields[0]) + seq![COMMA] + csv_fields(fields.drop_first())
    }
}

/// The line of a record: its fields, or a pair of quotes where they come
/// to nothing, and a line feed.
pub open spec fn csv_record(fields: Seq<Seq<u8>>) -> Seq<u8> {
    if csv_fields(fields).len() == 0 {
        seq![QUOTE, QUOTE, LF]
    } else {
        csv_fields(fields) + seq![LF]
    }
}

/// The bytes of each field of a record of text: its UTF-8 encoding.
pub open spec fn field_bytes(fields: Seq<Seq<char>>) -> Seq<Seq<u8>> {
    fields.map_values(|field: Seq<char>| encode_utf8(field))
}

/// The line of a record of text.
pub open spec fn csv_record_bytes(fields: Seq<Seq<char>>) -> Seq<u8> {
    csv_record(field_bytes(fields))
}

/// Where a reader stands within a table.
pub enum ReadMode {
    /// Before the first byte of a field.
    Start,
    /// Within a field that is written without quotes.
    Plain,
    /// Within the quotes of a field.
    Quoted,
    /// After a quote within the quotes of a field: the quote ends the
    /// field, unless another one follows it.
    QuoteSeen,
}

/// What a reader has read of a table so far.
pub struct Reading {
    pub mode: ReadMode,
    /// The bytes read of the field at hand.
    pub field: Seq<u8>,
    /// The fields read of the record at hand.
    pub record: Seq<Seq<u8>>,
    /// The records read in full.
    pub records: Seq<Seq<Seq<u8>>>,
}

impl Reading {
    /// Nothing read yet.
    pub open spec fn start() -> Reading {
        Reading {
            mode: ReadMode::Start,
            field: Seq::empty(),
            record: Seq::empty(),
            records: Seq::empty(),
        }
    }

    /// Whether the reader stands between two records.
    pub open spec fn between_records(self) -> bool {
        self.mode is Start && self.field.len() == 0 && self.record.len() == 0
    }

    /// One more byte of the field at hand.
    pub open spec fn more(self, byte: u8, mode: ReadMode) -> Reading {
        Reading { mode, field: self.field.push(byte), ..self }
    }

    /// The field at hand is complete; another one follows.
    pub open spec fn end_field(self) -> Reading {
        Reading {
            mode: ReadMode::Start,
            field: Seq::empty(),
            record: self.record.push(self.field),
            ..self
        }
    }

    /// The field at hand is complete, and the record with it.
    pub open spec fn end_record(self) -> Reading {
        Reading {
            mode: ReadMode::Start,
            field: Seq::empty(),
            record: Seq::empty(),
            records: self.records.push(self.record.push(self.field)),
        }
    }

    /// The reader after the next byte.
    pub open spec fn step(self, byte: u8) -> Reading {
        match self.mode {
            ReadMode::Quoted => if byte == QUOTE {
                Reading { mode: ReadMode::QuoteSeen, ..self }
            } else {
                self.more(byte, ReadMode::Quoted)
            },
            ReadMode::QuoteSeen => if byte == QUOTE {
                self.more(byte, ReadMode::Quoted)
            } else if byte == COMMA {
                self.end_field()
            } else if byte == LF {
                self.end_record()
            } else {
                self.more(byte, ReadMode::Plain)
            },
            ReadMode::Start => if byte == QUOTE {
                Reading { mode: ReadMode::Quoted, ..self }
            } else if byte == COMMA {
                self.end_field()
            } else if byte == LF {
                self.end_record()
            } else {
                self.more(byte, ReadMode::Plain)
            },
            ReadMode::Plain => if byte == COMMA {
                self.end_field()
            } else if byte == LF {
                self.end_record()
            } else {
                self.more(byte, ReadMode::Plain)
            },
        }
    }

    /// The reader after all of `bytes`.
    pub open spec fn run(self, bytes: Seq<u8>) -> Reading
        decreases bytes.len(),
    {
        if bytes.len() == 0 {
            self
        } else {
            self.step(bytes[0]).run(bytes.drop_first())
        }
    }
}

/// The records of a table, each with its fields, as a reader finds them
/// that goes through the bytes once: commas part fields and line feeds part
/// records, but for those within quotes; the quotes round a field are
/// dropped, and two quotes within them are read as one.
pub open spec fn read_table(bytes: Seq<u8>) -> Seq<Seq<Seq<u8>>> {
    let end = Reading::start().run(bytes);
    if end.between_records() {
        end.records
    } else {
        end.end_record().records
    }
}

/// Reading one piece after another is reading them joined.
pub proof fn lemma_run_concat(reading: Reading, first: Seq<u8>, second: Seq<u8>)
    ensures
        reading.run(first + second) == reading.run(first).run(second),
    decreases first.len(),
{
    if first.len() == 0 {
        assert(first + second =~= second);
    } else {
        assert((first + second).drop_first() =~= first.drop_first() + second);
        lemma_run_concat(reading.step(first[0]), first.drop_first(), second);
    }
}

/// A field without quotes is read as it stands.
proof fn lemma_run_plain(reading: Reading, field: Seq<u8>)
    requires
        !needs_quotes(field),
        reading.mode is Start || reading.mode is Plain,
    ensures
        reading.run(field) == (Reading {
            mode: if field.len() == 0 {
                reading.mode
            } else {
                ReadMode::Plain
            },
            field: reading.field + field,
            ..reading
        }),
    decreases field.len(),
{
    if field.len() == 0 {
        assert(reading.field + field =~= reading.field);
    } else {
        let rest = field.drop_first();
        assert(!is_special(field[0]));
        assert(!needs_quotes(rest)) by {
            if needs_quotes(rest) {
                let i = choose|i: int| 0 <= i < rest.len() && is_special(#[trigger] rest[i]);
                assert(is_special(field[i + 1]));
            }
        }
        let next = reading.step(field[0]);
        lemma_run_plain(next, rest);
        assert(next.field + rest =~= reading.field + field);
    }
}

/// Within quotes, a field with its quotes doubled is read as the field.
proof fn lemma_run_doubled(reading: Reading, field: Seq<u8>)
    requires
        reading.mode is Quoted,
    ensures
        reading.run(doubled(field)) == (Reading { field: reading.field + field, ..reading }),
    decreases field.len(),
{
    if field.len() == 0 {
        assert(reading.field + field =~= reading.field);
    } else {
        let rest = field.drop_first();
        let next = reading.more(field[0], ReadMode::Quoted);
        let head = if field[0] == QUOTE {
            seq![QUOTE, QUOTE]
        } else {
            seq![field[0]]
        };
        assert(doubled(field) == head + doubled(rest));
        lemma_run_concat(reading, head, doubled(rest));
        assert(reading.run(head) == next) by {
            if field[0] == QUOTE {
                assert(head.drop_first() =~= seq![QUOTE]);
                assert(head.drop_first().drop_first() =~= Seq::<u8>::empty());
                reveal_with_fuel(Reading::run, 3);
            } else {
                assert(head.drop_first() =~= Seq::<u8>::empty());
                reveal_with_fuel(Reading::run, 2);
            }
        }
        lemma_run_doubled(next, rest);
        assert(next.field + rest =~= reading.field + field);
    }
}

/// A field as it is written is read back as it was, whether a comma or a
/// line feed follows it.
proof fn lemma_run_field(reading: Reading, field: Seq<u8>, then_byte: u8)
    requires
        reading.mode is Start,
        reading.field.len() == 0,
        then_byte == COMMA || then_byte == LF,
    ensures
        reading.run(csv_field(field) + seq![then_byte]) == if then_byte == COMMA {
            Reading { record: reading.record.push(field), ..reading }
        } else {
            Reading {
                record: Seq::empty(),
                records: reading.records.push(reading.record.push(field)),
                ..reading
            }
        },
{
    let tail = seq![then_byte];
    assert(tail.drop_first() =~= Seq::<u8>::empty());
    lemma_run_concat(reading, csv_field(field), tail);
    let at_end = reading.run(csv_field(field));
    assert(at_end.run(tail) == at_end.step(then_byte)) by {
        reveal_with_fuel(Reading::run, 2);
    }
    assert(reading.field =~= Seq::<u8>::empty());
    assert(reading.field + field =~= field);
    if needs_quotes(field) {
        let open = seq![QUOTE];
        assert(open.drop_first() =~= Seq::<u8>::empty());
        let inside = Reading { mode: ReadMode::Quoted, ..reading };
        assert(reading.run(open) == inside) by {
            reveal_with_fuel(Reading::run, 2);
        }
        assert(csv_field(field) =~= open + (doubled(field) + open));
        lemma_run_concat(reading, open, doubled(field) + open);
        lemma_run_concat(inside, doubled(field), open);
        lemma_run_doubled(inside, field);
        let filled = Reading { field: inside.field + field, ..inside };
        assert(filled.run(open) == filled.step(QUOTE)) by {
            reveal_with_fuel(Reading::run, 2);
        }
        assert(at_end == Reading { mode: ReadMode::QuoteSeen, field, ..reading });
    } else {
        lemma_run_plain(reading, field);
        assert(at_end.field == field);
        assert(at_end.mode is Start || at_end.mode is Plain);
    }
}

/// The fields of a record as they are written, and the line feed after
/// them, are read back as they were.
proof fn lemma_run_fields(reading: Reading, fields: Seq<Seq<u8>>)
    requires
        reading.mode is Start,
        reading.field.len() == 0,
        fields.len() >= 1,
    ensures
        reading.run(csv_fields(fields) + seq![LF]) == (Reading {
            record: Seq::empty(),
            records: reading.records.push(reading.record + fields),
            ..reading
        }),
    decreases fields.len(),
{
    if fields.len() == 1 {
        lemma_run_field(reading, fields[0], LF);
        assert(reading.record.push(fields[0]) =~= reading.record + fields);
    } else {
        let rest = fields.drop_first();
        let head = csv_field(fields[0]) + seq![COMMA];
        assert(csv_fields(fields) + seq![LF] =~= head + (csv_fields(rest) + seq![LF]));
        lemma_run_concat(reading, head, csv_fields(rest) + seq![LF]);
        lemma_run_field(reading, fields[0], COMMA);
        let next = Reading { record: reading.record.push(fields[0]), ..reading };
        lemma_run_fields(next, rest);
        assert(next.record + rest =~= reading.record + fields);
    }
}

/// The line of a record with at least one field is read back as that
/// record.
pub proof fn lemma_run_record(reading: Reading, fields: Seq<Seq<u8>>)
    requires
        reading.between_records(),
        fields.len() >= 1,
    ensures
        reading.run(csv_record(fields)) == (Reading {
            records: reading.records.push(fields),
            ..reading
        }),
{
    assert(reading.record =~= Seq::<Seq<u8>>::empty());
    assert(reading.field =~= Seq::<u8>::empty());
    assert(reading.record + fields =~= fields);
    if csv_fields(fields).len() == 0 {
        assert(fields.len() == 1);
        assert(fields[0].len() == 0);
        assert(fields[0] =~= Seq::<u8>::empty());
        assert(fields =~= seq![Seq::<u8>::empty()]);
        let line = seq![QUOTE, QUOTE, LF];
        assert(line.drop_first() =~= seq![QUOTE, LF]);
        assert(line.drop_first().drop_first() =~= seq![LF]);
        assert(line.drop_first().drop_first().drop_first() =~= Seq::<u8>::empty());
        reveal_with_fuel(Reading::run, 4);
        assert(reading.record.push(reading.field) =~= fields);
    } else {
        lemma_run_fields(reading, fields);
    }
}

/// The lines of records that have at least one field each are read back
/// as those records, in their order.
pub proof fn lemma_run_records(reading: Reading, records: Seq<Seq<Seq<u8>>>)
    requires
        reading.between_records(),
        forall|i: int| 0 <= i < records.len() ==> (#[trigger] records[i]).len() >= 1,
    ensures
        reading.run(records.map_values(|fields: Seq<Seq<u8>>| csv_record(fields)).flatten())
            == (Reading { records: reading.records + records, ..reading }),
    decreases records.len(),
{
    let line_of = |fields: Seq<Seq<u8>>| csv_record(fields);
    let lines = records.map_values(line_of);
    if records.len() == 0 {
        assert(lines.flatten() =~= Seq::<u8>::empty());
        assert(reading.records + records =~= reading.records);
    } else {
        let rest = records.drop_first();
        assert(lines.drop_first() =~= rest.map_values(line_of));
        assert(lines.flatten() == csv_record(records[0]) + rest.map_values(line_of).flatten());
        lemma_run_concat(reading, csv_record(records[0]), rest.map_values(line_of).flatten());
        lemma_run_record(reading, records[0]);
        let next = Reading { records: reading.records.push(records[0]), ..reading };
        assert forall|i: int| 0 <= i < rest.len() implies (#[trigger] rest[i]).len() >= 1 by {
            assert(rest[i] == records[i + 1]);
        }
        lemma_run_records(next, rest);
        assert(next.records + rest =~= reading.records + records);
    }
}

/// Writing, then reading. A table written from records that have at least
/// one field each is read back as those records: as many of them, in the
/// same order, each with the same fields, byte for byte.
pub proof fn lemma_read_back(records: Seq<Seq<Seq<u8>>>)
    requires
        forall|i: int| 0 <= i < records.len() ==> (#[trigger] records[i]).len() >= 1,
    ensures
        read_table(records.map_values(|fields: Seq<Seq<u8>>| csv_record(fields)).flatten())
            == records,
{
    lemma_run_records(Reading::start(), records);
    assert(Reading::start().records + records =~= records);
}

} // verus!
