use vstd::prelude::*;
use vstd::utf8::encode_utf8;

verus! {

#[verifier::external_type_specification]
#[verifier::external_body]
pub struct ExCsvError(csv::Error);

/// A `csv::Writer` into a `Vec<u8>`; `csv_written` names the bytes it holds.
#[verifier::external_body]
pub struct CsvSink {
    writer: csv::Writer<Vec<u8>>,
}

/// The bytes a csv writer holds so far, whether still in its buffer or already in its `Vec`.
pub uninterp spec fn csv_written(w: CsvSink) -> Seq<u8>;

/// A row as the sequence of its cells' texts.
pub open spec fn row_view(row: Seq<String>) -> Seq<Seq<char>> {
    row.map_values(|cell: String| cell@)
}

/// A field must be quoted when it holds the delimiter, a quote or a line break.
pub open spec fn needs_quotes(f: Seq<char>) -> bool {
    f.contains(',') || f.contains('"') || f.contains('\r') || f.contains('\n')
}

/// `f` with each quote doubled.
pub open spec fn double_quotes(f: Seq<char>) -> Seq<char>
    decreases f.len(),
{
    if f.len() == 0 {
        f
    } else {
        (if f[0] == '"' {
            seq!['"', '"']
        } else {
            seq![f[0]]
        }) + double_quotes(f.drop_first())
    }
}

/// A field as written: quoted, with quotes doubled, when it must be; else as it is.
pub open spec fn csv_field(f: Seq<char>) -> Seq<char> {
    if needs_quotes(f) {
        seq!['"'] + double_quotes(f) + seq!['"']
    } else {
        f
    }
}

/// The fields of a row as written, separated by commas.
pub open spec fn joined_fields(row: Seq<Seq<char>>) -> Seq<char>
    decreases row.len(),
{
    if row.len() == 0 {
        Seq::empty()
    } else if row.len() == 1 {
        csv_field(row[0])
    } else {
        csv_field(row[0]) + seq![','] + joined_fields(row.drop_first())
    }
}

/// A row as one record: its fields, or `""` when they come to nothing (so that a row of one
/// empty cell is not an empty line), then a line feed.
pub open spec fn csv_record(row: Seq<Seq<char>>) -> Seq<char> {
    (if joined_fields(row).len() == 0 {
        seq!['"', '"']
    } else {
        joined_fields(row)
    }) + seq!['\n']
}

/// The rows as records, one after another.
pub open spec fn csv_text(rows: Seq<Seq<Seq<char>>>) -> Seq<char>
    decreases rows.len(),
{
    if rows.len() == 0 {
        Seq::empty()
    } else {
        csv_text(rows.drop_last()) + csv_record(rows.last())
    }
}

/// Relies on `csv::WriterBuilder::flexible` and `csv::WriterBuilder::from_writer`: a writer
/// with the default dialect (`,` delimiter, `"` quote doubled, `\n` terminator, quotes only
/// where needed) into an empty `Vec`, that accepts records of differing lengths.
#[verifier::external_body]
fn new_csv_writer() -> (w: CsvSink)
    ensures
        csv_written(w) == Seq::<u8>::empty(),
{
    CsvSink { writer: csv::WriterBuilder::new().flexible(true).from_writer(Vec::new()) }
}

/// Relies on `csv::Writer::write_record`: the record's bytes follow what was written
/// before. A flexible writer checks no field count, and writing into a `Vec` cannot fail, so
/// the call succeeds.
#[verifier::external_body]
fn csv_write_record(w: &mut CsvSink, row: &Vec<String>) -> (r: Result<(), csv::Error>)
    ensures
        r is Ok,
        r is Ok ==> csv_written(*final(w)) == csv_written(*old(w)) + encode_utf8(
            csv_record(row_view(row@)),
        ),
{
    w.writer.write_record(row)
}

/// Relies on `csv::Writer::into_inner`: flushes the writer and hands back its `Vec`; flushing
/// into a `Vec` cannot fail.
#[verifier::external_body]
fn csv_into_inner(w: CsvSink) -> (r: Option<Vec<u8>>)
    ensures
        r is Some,
        r matches Some(v) ==> v@ == csv_written(w),
{
    w.writer.into_inner().ok()
}

pub proof fn lemma_encode_utf8_concat(a: Seq<char>, b: Seq<char>)
    ensures
        encode_utf8(a + b) == encode_utf8(a) + encode_utf8(b),
    decreases a.len(),
{
    if a.len() == 0 {
        assert(a + b =~= b);
    } else {
        assert((a + b).drop_first() =~= a.drop_first() + b);
        lemma_encode_utf8_concat(a.drop_first(), b);
    }
}

/// Encodes rows as comma-separated text, one record per row, as they come.
pub struct DelimitedEncoder {
    writer: CsvSink,
    rows: Ghost<Seq<Seq<Seq<char>>>>,
}

impl DelimitedEncoder {
    /// The rows encoded so far.
    pub closed spec fn rows(&self) -> Seq<Seq<Seq<char>>> {
        self.rows@
    }

    pub closed spec fn wf(&self) -> bool {
        csv_written(self.writer) == encode_utf8(csv_text(self.rows@))
    }

    pub fn new() -> (r: DelimitedEncoder)
        ensures
            r.wf(),
            r.rows() == Seq::<Seq<Seq<char>>>::empty(),
    {
        let writer = new_csv_writer();
        let r = DelimitedEncoder { writer, rows: Ghost(Seq::empty()) };
        assert(encode_utf8(csv_text(r.rows@)) =~= Seq::<u8>::empty());
        r
    }

    /// Appends `row` as one record, whatever its number of cells.
    pub fn encode_row(&mut self, row: &Vec<String>) -> (r: Result<(), ()>)
        requires
            old(self).wf(),
        ensures
            r is Ok,
            r is Ok ==> final(self).wf(),
            r is Ok ==> final(self).rows() == old(self).rows().push(row_view(row@)),
    {
        let result = csv_write_record(&mut self.writer, row);
        match result {
            Ok(()) => {
                let ghost before = self.rows@;
                self.rows = Ghost(before.push(row_view(row@)));
                proof {
                    let after = self.rows@;
                    assert(after.drop_last() =~= before);
                    lemma_encode_utf8_concat(csv_text(before), csv_record(row_view(row@)));
                }
                Ok(())
            },
            Err(_) => Err(()),
        }
    }

    /// The bytes of all records written.
    pub fn finish(self) -> (r: Option<Vec<u8>>)
        requires
            self.wf(),
        ensures
            r is Some,
            r matches Some(v) ==> v@ == encode_utf8(csv_text(self.rows())),
    {
        csv_into_inner(self.writer)
    }
}

/// How many characters an unquoted field takes: up to the next `,` or line feed.
pub open spec fn plain_len(s: Seq<char>) -> nat
    decreases s.len(),
{
    if s.len() == 0 || s[0] == ',' || s[0] == '\n' {
        0
    } else {
        1 + plain_len(s.drop_first())
    }
}

/// Reads the inside of a quoted field, after its opening quote: a doubled quote stands for
/// one quote, a single quote closes the field. Gives the field's text and what follows the
/// closing quote.
pub open spec fn read_quoted(s: Seq<char>) -> (Seq<char>, Seq<char>)
    decreases s.len(),
{
    if s.len() == 0 {
        (Seq::empty(), Seq::empty())
    } else if s[0] == '"' {
        if s.len() >= 2 && s[1] == '"' {
            let (text, rest) = read_quoted(s.subrange(2, s.len() as int));
            (seq!['"'] + text, rest)
        } else {
            (Seq::empty(), s.drop_first())
        }
    } else {
        let (text, rest) = read_quoted(s.drop_first());
        (seq![s[0]] + text, rest)
    }
}

/// Reads one field: quoted when it starts with a quote, else plain. Gives its text and what
/// follows it.
pub open spec fn read_field(s: Seq<char>) -> (Seq<char>, Seq<char>) {
    if s.len() > 0 && s[0] == '"' {
        read_quoted(s.drop_first())
    } else {
        (s.take(plain_len(s) as int), s.skip(plain_len(s) as int))
    }
}

/// Reads one record: fields separated by `,`, up to a line feed or the end. Gives the fields
/// and what follows the line feed.
pub open spec fn read_record(s: Seq<char>) -> (Seq<Seq<char>>, Seq<char>)
    decreases s.len(),
{
    let (field, rest) = read_field(s);
    if rest.len() > 0 && rest.len() <= s.len() && rest[0] == ',' {
        let (fields, after) = read_record(rest.drop_first());
        (seq![field] + fields, after)
    } else if rest.len() > 0 && rest[0] == '\n' {
        (seq![field], rest.drop_first())
    } else {
        (seq![field], Seq::empty())
    }
}

/// Reads comma-separated text as rows of cell texts, one row per record.
pub open spec fn read_rows(s: Seq<char>) -> Seq<Seq<Seq<char>>>
    decreases s.len(),
{
    if s.len() == 0 {
        Seq::empty()
    } else {
        let (row, rest) = read_record(s);
        if rest.len() < s.len() {
            seq![row] + read_rows(rest)
        } else {
            seq![row]
        }
    }
}

/// Text that a field can be followed by: nothing, or a `,` or a line feed and more.
pub open spec fn field_follower(t: Seq<char>) -> bool {
    t.len() == 0 || t[0] == ',' || t[0] == '\n'
}

proof fn lemma_plain_len(f: Seq<char>, t: Seq<char>)
    requires
        !f.contains(','),
        !f.contains('\n'),
        field_follower(t),
    ensures
        plain_len(f + t) == f.len(),
    decreases f.len(),
{
    if f.len() == 0 {
        assert(f + t =~= t);
    } else {
        assert((f + t).drop_first() =~= f.drop_first() + t);
        assert(f[0] != ',' && f[0] != '\n') by {
            assert(f.contains(f[0]));
        }
        assert(!f.drop_first().contains(',')) by {
            if f.drop_first().contains(',') {
                let i = choose|i: int| 0 <= i < f.drop_first().len() && f.drop_first()[i] == ',';
                assert(f[i + 1] == ',');
            }
        }
        assert(!f.drop_first().contains('\n')) by {
            if f.drop_first().contains('\n') {
                let i = choose|i: int| 0 <= i < f.drop_first().len() && f.drop_first()[i] == '\n';
                assert(f[i + 1] == '\n');
            }
        }
        lemma_plain_len(f.drop_first(), t);
    }
}

proof fn lemma_read_quoted(f: Seq<char>, t: Seq<char>)
    requires
        t.len() == 0 || t[0] != '"',
    ensures
        read_quoted(double_quotes(f) + seq!['"'] + t) == (f, t),
    decreases f.len(),
{
    let s = double_quotes(f) + seq!['"'] + t;
    if f.len() == 0 {
        assert(double_quotes(f) =~= Seq::<char>::empty());
        assert(s.drop_first() =~= t);
    } else if f[0] == '"' {
        let inner = double_quotes(f.drop_first()) + seq!['"'] + t;
        assert(s =~= seq!['"', '"'] + inner);
        assert(s.subrange(2, s.len() as int) =~= inner);
        lemma_read_quoted(f.drop_first(), t);
        assert(seq!['"'] + f.drop_first() =~= f);
    } else {
        let inner = double_quotes(f.drop_first()) + seq!['"'] + t;
        assert(s =~= seq![f[0]] + inner);
        assert(s.drop_first() =~= inner);
        lemma_read_quoted(f.drop_first(), t);
        assert(seq![f[0]] + f.drop_first() =~= f);
    }
}

proof fn lemma_read_field(f: Seq<char>, t: Seq<char>)
    requires
        field_follower(t),
    ensures
        read_field(csv_field(f) + t) == (f, t),
{
    let s = csv_field(f) + t;
    if needs_quotes(f) {
        assert(s.drop_first() =~= double_quotes(f) + seq!['"'] + t);
        lemma_read_quoted(f, t);
    } else {
        lemma_plain_len(f, t);
        if f.len() > 0 {
            assert(f[0] != '"') by {
                assert(f.contains(f[0]));
            }
        }
        assert(s.take(f.len() as int) =~= f);
        assert(s.skip(f.len() as int) =~= t);
    }
}

proof fn lemma_read_joined(row: Seq<Seq<char>>, rest: Seq<char>)
    requires
        row.len() >= 1,
    ensures
        read_record(joined_fields(row) + seq!['\n'] + rest) == (row, rest),
    decreases row.len(),
{
    let s = joined_fields(row) + seq!['\n'] + rest;
    if row.len() == 1 {
        let t = seq!['\n'] + rest;
        assert(s =~= csv_field(row[0]) + t);
        lemma_read_field(row[0], t);
        assert(t.drop_first() =~= rest);
        assert(seq![row[0]] =~= row);
    } else {
        let tail = row.drop_first();
        let t = seq![','] + joined_fields(tail) + seq!['\n'] + rest;
        assert(s =~= csv_field(row[0]) + t);
        lemma_read_field(row[0], t);
        assert(t.drop_first() =~= joined_fields(tail) + seq!['\n'] + rest);
        lemma_read_joined(tail, rest);
        assert(seq![row[0]] + tail =~= row);
    }
}

/// A record is read back as its row, and reading goes on right after it.
proof fn lemma_read_record(row: Seq<Seq<char>>, rest: Seq<char>)
    requires
        row.len() >= 1,
    ensures
        read_record(csv_record(row) + rest) == (row, rest),
{
    if joined_fields(row).len() == 0 {
        if row.len() > 1 {
            assert(joined_fields(row).len() >= 1);
        }
        assert(csv_field(row[0]).len() == 0);
        assert(!needs_quotes(row[0]));
        let s = csv_record(row) + rest;
        assert(s =~= seq!['"', '"', '\n'] + rest);
        assert(s.drop_first() =~= seq!['"', '\n'] + rest);
        let (field, after) = read_field(s);
        assert(field =~= Seq::<char>::empty());
        assert(after =~= seq!['\n'] + rest);
        assert(after.drop_first() =~= rest);
        assert(row =~= seq![row[0]]);
        assert(row[0] =~= Seq::<char>::empty());
    } else {
        assert(csv_record(row) + rest =~= joined_fields(row) + seq!['\n'] + rest);
        lemma_read_joined(row, rest);
    }
}

proof fn lemma_csv_text_front(rows: Seq<Seq<Seq<char>>>)
    requires
        rows.len() >= 1,
    ensures
        csv_text(rows) == csv_record(rows[0]) + csv_text(rows.drop_first()),
    decreases rows.len(),
{
    if rows.len() == 1 {
        assert(rows.drop_last() =~= Seq::<Seq<Seq<char>>>::empty());
        assert(rows.drop_first() =~= Seq::<Seq<Seq<char>>>::empty());
        assert(csv_record(rows[0]) + Seq::<char>::empty() =~= csv_record(rows[0]));
    } else {
        lemma_csv_text_front(rows.drop_last());
        assert(rows.drop_last().drop_first() =~= rows.drop_first().drop_last());
        assert(rows.drop_first().last() == rows.last());
        assert(csv_record(rows[0]) + csv_text(rows.drop_first().drop_last()) + csv_record(
            rows.last(),
        ) =~= csv_record(rows[0]) + (csv_text(rows.drop_first().drop_last()) + csv_record(
            rows.last(),
        )));
    }
}

/// Reading back the text of rows that each have at least one cell gives those rows, cell
/// for cell and in order. (A row with no cells is written as one empty cell.)
pub proof fn lemma_csv_text_reads_back(rows: Seq<Seq<Seq<char>>>)
    requires
        forall|i: int| 0 <= i < rows.len() ==> #[trigger] rows[i].len() >= 1,
    ensures
        read_rows(csv_text(rows)) == rows,
    decreases rows.len(),
{
    if rows.len() == 0 {
        assert(read_rows(csv_text(rows)) =~= rows);
    } else {
        let s = csv_text(rows);
        let tail = rows.drop_first();
        lemma_csv_text_front(rows);
        assert(rows[0].len() >= 1);
        lemma_read_record(rows[0], csv_text(tail));
        assert(csv_record(rows[0]).len() > 0);
        assert forall|i: int| 0 <= i < tail.len() implies #[trigger] tail[i].len() >= 1 by {
            assert(tail[i] == rows[i + 1]);
        }
        lemma_csv_text_reads_back(tail);
        assert(seq![rows[0]] + tail =~= rows);
    }
}

/// The bytes of the rows' text, decoded as UTF-8 and read, give back the rows, for rows that
/// each have at least one cell.
pub proof fn lemma_csv_round_trip(rows: Seq<Seq<Seq<char>>>)
    requires
        forall|i: int| 0 <= i < rows.len() ==> #[trigger] rows[i].len() >= 1,
    ensures
        read_rows(vstd::utf8::decode_utf8(encode_utf8(csv_text(rows)))) == rows,
{
    vstd::utf8::encode_utf8_decode_utf8(csv_text(rows));
    lemma_csv_text_reads_back(rows);
}

} // verus!
