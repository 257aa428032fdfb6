//! The CSV side: how a record becomes a row, and the sink that collects rows.
//!
//! Rows are encoded by the `csv` crate in its default configuration: fields
//! joined by commas, a line feed after each record, and a field in double
//! quotes, with the quotes inside it doubled, exactly when it holds a comma,
//! a double quote, a carriage return or a line feed. Whether the encoder
//! reports an error for a record depends on its fields alone; the functions
//! here fail exactly where it does, and leave what they work on as it was.

use vstd::prelude::*;
use vstd::utf8::{encode_utf8, is_ascii_chars_encode_utf8};
use crate::record::{OutputRecord, OutputView};

verus! {

/// The byte between two fields.
pub const COMMA: u8 = 0x2C;

/// The double quote.
pub const QUOTE: u8 = 0x22;

/// The byte that ends a row.
pub const LINE_FEED: u8 = 0x0A;

/// The carriage return.
pub const CARRIAGE_RETURN: u8 = 0x0D;

/// The bytes that force a field into quotes.
pub open spec fn is_special(byte: u8) -> bool {
    byte == COMMA || byte == QUOTE || byte == CARRIAGE_RETURN || byte == LINE_FEED
}

/// Whether a field has to be quoted.
pub open spec fn needs_quotes(field: Seq<u8>) -> bool {
    exists|i: int| 0 <= i < field.len() && is_special(#[trigger] field[i])
}

/// The field with each double quote written twice.
pub open spec fn double_quotes(field: Seq<u8>) -> Seq<u8>
    decreases field.len(),
{
    if field.len() == 0 {
        Seq::empty()
    } else if field.last() == QUOTE {
        double_quotes(field.drop_last()).push(QUOTE).push(QUOTE)
    } else {
        double_quotes(field.drop_last()).push(field.last())
    }
}

/// One field as it stands in a row.
pub open spec fn encode_field(field: Seq<u8>) -> Seq<u8> {
    if needs_quotes(field) {
        seq![QUOTE] + double_quotes(field) + seq![QUOTE]
    } else {
        field
    }
}

/// A record of three fields as one line of CSV.
pub open spec fn encode_record(first: Seq<u8>, second: Seq<u8>, third: Seq<u8>) -> Seq<u8> {
    encode_field(first) + seq![COMMA] + encode_field(second) + seq![COMMA] + encode_field(third)
        + seq![LINE_FEED]
}

/// The header row: the names of the three columns.
pub open spec fn header_bytes() -> Seq<u8> {
    encode_record(encode_utf8("name"@), encode_utf8("billing_code"@), encode_utf8("avg_rate"@))
}

/// The row of one record: its name, its billing code, the text of its average.
pub open spec fn row_bytes(record: OutputView) -> Seq<u8> {
    encode_record(
        encode_utf8(record.name),
        encode_utf8(record.billing_code),
        encode_utf8(record.avg_rate.text),
    )
}

/// The rows of some records, one after the other.
pub open spec fn rows_bytes(records: Seq<OutputView>) -> Seq<u8>
    decreases records.len(),
{
    if records.len() == 0 {
        Seq::empty()
    } else {
        rows_bytes(records.drop_last()) + row_bytes(records.last())
    }
}

/// The whole CSV output for some records: the header row, then their rows.
pub open spec fn csv_bytes(records: Seq<OutputView>) -> Seq<u8> {
    header_bytes() + rows_bytes(records)
}

/// The header row is the line `name,billing_code,avg_rate`.
pub proof fn lemma_header_line()
    ensures
        header_bytes() == encode_utf8("name,billing_code,avg_rate\n"@),
{
    reveal_strlit("name");
    reveal_strlit("billing_code");
    reveal_strlit("avg_rate");
    reveal_strlit("name,billing_code,avg_rate\n");
    is_ascii_chars_encode_utf8("name"@);
    is_ascii_chars_encode_utf8("billing_code"@);
    is_ascii_chars_encode_utf8("avg_rate"@);
    is_ascii_chars_encode_utf8("name,billing_code,avg_rate\n"@);
}

/// `csv::Error`, carried unopened from the encoder to [`row_from`].
#[verifier::external_type_specification]
#[verifier::external_body]
pub struct ExCsvError(csv::Error);

/// The row could not be encoded.
#[derive(Clone, Copy, Debug, PartialEq, Eq, Structural)]
pub enum SinkError {
    Encoding,
}

/// Whether the `csv` writer, asked for one record of these three fields,
/// reports an error.
pub uninterp spec fn encoder_refuses(first: Seq<u8>, second: Seq<u8>, third: Seq<u8>) -> bool;

/// Whether the encoder refuses the header row.
pub open spec fn header_refused() -> bool {
    encoder_refuses(encode_utf8("name"@), encode_utf8("billing_code"@), encode_utf8("avg_rate"@))
}

/// Whether the encoder refuses the row of a record.
pub open spec fn row_refused(record: OutputView) -> bool {
    encoder_refuses(
        encode_utf8(record.name),
        encode_utf8(record.billing_code),
        encode_utf8(record.avg_rate.text),
    )
}

/// Whether the encoder refuses to put a record into a sink: its row, or the
/// header row where that has to go in first.
pub open spec fn emit_refused(header_written: bool, record: OutputView) -> bool {
    row_refused(record) || (!header_written && header_refused())
}

/// Writes one record of three fields with `csv::Writer::write_record` into a
/// fresh `csv::Writer` over a `Vec<u8>` and takes the bytes back with
/// `csv::Writer::into_inner`. Believed of it, not proved: whether the writer
/// reports an error is a function of the three fields alone; where it reports
/// none, the bytes are the record as the crate's default configuration
/// encodes it, which [`encode_record`] writes out. That it reports none is
/// not claimed.
#[verifier::external_body]
fn write_record(first: &[u8], second: &[u8], third: &[u8]) -> (r: Result<Vec<u8>, csv::Error>)
    ensures
        r is Err <==> encoder_refuses(first@, second@, third@),
        r matches Ok(bytes) ==> bytes@ == encode_record(first@, second@, third@),
{
    let mut writer = csv::Writer::from_writer(Vec::new());
    writer.write_record([first, second, third])?;
    writer.into_inner().map_err(|e| csv::Error::from(e.into_error()))
}

/// What the encoder's answer means for a row: its bytes, or that there is none.
pub fn row_from(written: Result<Vec<u8>, csv::Error>) -> (r: Result<Vec<u8>, SinkError>)
    ensures
        match written {
            Ok(bytes) => r == Ok::<Vec<u8>, SinkError>(bytes),
            Err(_) => r == Err::<Vec<u8>, SinkError>(SinkError::Encoding),
        },
{
    match written {
        Ok(bytes) => Ok(bytes),
        Err(_) => Err(SinkError::Encoding),
    }
}

/// The header row: the names of the three columns, handed to the encoder.
/// It fails exactly where the encoder refuses them.
pub fn header_row() -> (r: Result<Vec<u8>, SinkError>)
    ensures
        match r {
            Ok(bytes) => !header_refused() && bytes@ == header_bytes(),
            Err(e) => header_refused() && e == SinkError::Encoding,
        },
{
    row_from(write_record("name".as_bytes(), "billing_code".as_bytes(), "avg_rate".as_bytes()))
}

/// The row of one record: its name, its billing code and the text of its
/// average, handed to the encoder. It fails exactly where the encoder refuses
/// them.
pub fn data_row(record: &OutputRecord) -> (r: Result<Vec<u8>, SinkError>)
    ensures
        match r {
            Ok(bytes) => !row_refused(record@) && bytes@ == row_bytes(record@),
            Err(e) => row_refused(record@) && e == SinkError::Encoding,
        },
{
    row_from(
        write_record(
            record.name.as_str().as_bytes(),
            record.billing_code.as_str().as_bytes(),
            record.avg_rate.text.as_str().as_bytes(),
        ),
    )
}

/// Collects the CSV output of a run and hands it out in pieces.
///
/// The header row goes in before the first data row, or on finishing where
/// there was none. What has been handed out and what is still held are,
/// together, always the output so far: no byte is lost and none comes twice.
pub struct Sink {
    header_written: bool,
    pending: Vec<u8>,
    rows: Ghost<Seq<OutputView>>,
    drained: Ghost<Seq<u8>>,
}

/// A sink as mathematics.
pub struct SinkView {
    /// Whether the header row has gone in.
    pub header_written: bool,
    /// The records emitted so far.
    pub rows: Seq<OutputView>,
    /// The bytes that have been handed out.
    pub drained: Seq<u8>,
    /// The bytes still held.
    pub pending: Seq<u8>,
}

impl SinkView {
    /// The output so far: nothing before the header row, then the header row
    /// and the rows of the records emitted.
    pub open spec fn written(self) -> Seq<u8> {
        if self.header_written {
            csv_bytes(self.rows)
        } else {
            Seq::empty()
        }
    }

    /// No record goes in before the header row, the bytes handed out and
    /// held are the output so far, and the encoder refused nothing of it.
    pub open spec fn well_formed(self) -> bool {
        &&& !self.header_written ==> self.rows.len() == 0
        &&& self.drained + self.pending == self.written()
        &&& self.header_written ==> !header_refused()
        &&& forall|i: int| 0 <= i < self.rows.len() ==> !row_refused(#[trigger] self.rows[i])
    }
}

impl View for Sink {
    type V = SinkView;

    closed spec fn view(&self) -> SinkView {
        SinkView {
            header_written: self.header_written,
            rows: self.rows@,
            drained: self.drained@,
            pending: self.pending@,
        }
    }
}

impl Sink {
    /// A sink that nothing has gone into.
    pub fn new() -> (sink: Sink)
        ensures
            sink@ == (SinkView {
                header_written: false,
                rows: Seq::empty(),
                drained: Seq::empty(),
                pending: Seq::empty(),
            }),
            sink@.well_formed(),
    {
        Sink {
            header_written: false,
            pending: Vec::new(),
            rows: Ghost(Seq::empty()),
            drained: Ghost(Seq::empty()),
        }
    }

    /// The number of bytes held.
    pub fn pending_len(&self) -> (n: usize)
        ensures
            n == self@.pending.len(),
    {
        self.pending.len()
    }

    /// Appends the row of `record`, after the header row where that has not
    /// gone in yet. It fails exactly where the encoder refuses the row, or the
    /// header row that has to go in first; the sink is then as it was.
    pub fn emit(&mut self, record: &OutputRecord) -> (r: Result<(), SinkError>)
        requires
            old(self)@.well_formed(),
        ensures
            final(self)@.well_formed(),
            match r {
                Ok(_) => {
                    &&& !emit_refused(old(self)@.header_written, record@)
                    &&& final(self)@ == (SinkView {
                        header_written: true,
                        rows: old(self)@.rows.push(record@),
                        drained: old(self)@.drained,
                        pending: old(self)@.pending + (if old(self)@.header_written {
                            Seq::<u8>::empty()
                        } else {
                            header_bytes()
                        }) + row_bytes(record@),
                    })
                },
                Err(e) => {
                    &&& emit_refused(old(self)@.header_written, record@)
                    &&& e == SinkError::Encoding
                    &&& final(self)@ == old(self)@
                },
            },
    {
        let mut row = match data_row(record) {
            Err(e) => { return Err(e); },
            Ok(bytes) => bytes,
        };
        if !self.header_written {
            let mut header = match header_row() {
                Err(e) => { return Err(e); },
                Ok(bytes) => bytes,
            };
            self.pending.append(&mut header);
            self.header_written = true;
        }
        self.pending.append(&mut row);
        proof {
            let ghost before = self.rows@;
            self.rows@ = before.push(record@);
            assert(before.push(record@).drop_last() =~= before);
            if old(self)@.header_written {
                assert(self.drained@ + self.pending@ =~= (old(self)@.drained + old(self)@.pending)
                    + row_bytes(record@));
            }
            assert(self.drained@ + self.pending@ =~= header_bytes() + (rows_bytes(before)
                + row_bytes(record@)));
        }
        Ok(())
    }

    /// Hands out the bytes held.
    pub fn drain(&mut self) -> (bytes: Vec<u8>)
        requires
            old(self)@.well_formed(),
        ensures
            final(self)@.well_formed(),
            bytes@ == old(self)@.pending,
            final(self)@ == (SinkView {
                drained: old(self)@.drained + old(self)@.pending,
                pending: Seq::empty(),
                ..old(self)@
            }),
    {
        let mut bytes: Vec<u8> = Vec::new();
        bytes.append(&mut self.pending);
        proof {
            self.drained@ = self.drained@ + bytes@;
        }
        bytes
    }

    /// Ends the output: puts the header row in where no record was emitted,
    /// and hands out the bytes held. With what was handed out before, they
    /// are the header row and the rows of all records emitted. It fails
    /// exactly where the header row has yet to go in and the encoder refuses
    /// it; the sink is then as it was.
    pub fn finish(&mut self) -> (r: Result<Vec<u8>, SinkError>)
        requires
            old(self)@.well_formed(),
        ensures
            final(self)@.well_formed(),
            match r {
                Ok(bytes) => {
                    &&& !header_refused()
                    &&& old(self)@.drained + bytes@ == csv_bytes(old(self)@.rows)
                    &&& final(self)@ == (SinkView {
                        header_written: true,
                        rows: old(self)@.rows,
                        drained: csv_bytes(old(self)@.rows),
                        pending: Seq::empty(),
                    })
                },
                Err(e) => {
                    &&& !old(self)@.header_written && header_refused()
                    &&& e == SinkError::Encoding
                    &&& final(self)@ == old(self)@
                },
            },
    {
        if !self.header_written {
            let mut header = match header_row() {
                Err(e) => { return Err(e); },
                Ok(bytes) => bytes,
            };
            self.pending.append(&mut header);
            self.header_written = true;
        }
        Ok(self.drain())
    }
}

} // verus!
