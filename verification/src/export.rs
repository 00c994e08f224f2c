//! Text encodings used by explicit CSV and JSON exports.
//!
//! Every user-controlled string passes through [`csv_field`] or
//! [`json_string`]; both encodings are proved reversible.

use vstd::prelude::*;
use crate::text::has_char;
use crate::text::chars_of;
use crate::text::push_char;
use crate::text::push_text;
use crate::storage::SampleState;

verus! {

/// Stable version of the on-disk export schemas.
pub const EXPORT_SCHEMA_VERSION: u32 = 1;

/// File representation selected by the caller.
#[derive(Clone, Copy, Debug, PartialEq, Eq, Structural)]
pub enum ExportFormat {
    /// RFC 4180-compatible comma-separated values.
    Csv,
    /// UTF-8 JSON with typed numeric values and `null` for missing values.
    Json,
}

impl ExportFormat {
    /// Suggested filename extension, without a dot.
    pub fn extension(self) -> (r: &'static str)
        ensures
            self == ExportFormat::Csv ==> r@ == "csv"@,
            self == ExportFormat::Json ==> r@ == "json"@,
    {
        match self {
            ExportFormat::Csv => "csv",
            ExportFormat::Json => "json",
        }
    }
}

/// Export-wide metadata, supplied by the caller so that a command can use
/// its selected timezone and a deterministic test a fixed generation time.
#[derive(Clone, Debug)]
pub struct ExportMetadata {
    /// RFC 3339 generation timestamp.
    pub generated_at: String,
    /// IANA timezone identifier used by the caller for calendar summaries.
    pub timezone: String,
}

/// Why an export file was not written.
#[derive(Clone, Debug)]
pub enum ExportError {
    /// The destination is not an explicit filename in an existing directory.
    InvalidPath(String),
    /// The destination already exists; exports never replace a file.
    DestinationExists(String),
    /// An operating-system write, sync, or rename operation failed; the
    /// operating system's description of the failure.
    Io(String),
}

/// The text shown for an export error.
pub open spec fn export_error_text(error: ExportError) -> Seq<char> {
    match error {
        ExportError::InvalidPath(message) => "invalid export path: "@ + message@,
        ExportError::DestinationExists(path) => "refusing to overwrite existing export destination "@
            + path@,
        ExportError::Io(message) => message@,
    }
}

impl ExportError {
    /// The text shown for this error.
    pub fn message(&self) -> (r: String)
        ensures
            r@ == export_error_text(*self),
    {
        let mut out = String::new();
        assert(out@ =~= Seq::<char>::empty());
        match self {
            ExportError::InvalidPath(message) => {
                push_text(&mut out, "invalid export path: ");
                push_text(&mut out, message.as_str());
            },
            ExportError::DestinationExists(path) => {
                push_text(&mut out, "refusing to overwrite existing export destination ");
                push_text(&mut out, path.as_str());
            },
            ExportError::Io(message) => {
                push_text(&mut out, message.as_str());
            },
        }
        out
    }
}

/// The exported spelling of a sample state.
pub fn state_name(state: SampleState) -> (r: &'static str)
    ensures
        r@ == crate::storage::sample_state_name(state),
{
    state.as_str()
}

// ---------------------------------------------------------------------------
// CSV
// ---------------------------------------------------------------------------

/// Whether a CSV field must be quoted (RFC 4180): it holds a comma, a
/// quote, or a line break.
pub open spec fn needs_quotes(field: Seq<char>) -> bool {
    has_char(field, ',') || has_char(field, '"') || has_char(field, '\r') || has_char(field, '\n')
}

/// `field` with every quote doubled.
pub open spec fn double_quotes(field: Seq<char>) -> Seq<char>
    decreases field.len(),
{
    if field.len() == 0 {
        Seq::empty()
    } else {
        let head = if field[0] == '"' {
            seq!['"', '"']
        } else {
            seq![field[0]]
        };
        head + double_quotes(field.drop_first())
    }
}

/// The CSV encoding of one field.
pub open spec fn csv_escape(field: Seq<char>) -> Seq<char> {
    if needs_quotes(field) {
        seq!['"'] + double_quotes(field) + seq!['"']
    } else {
        field
    }
}

/// Encoded fields separated by commas.
pub open spec fn csv_fields(fields: Seq<Seq<char>>) -> Seq<char>
    decreases fields.len(),
{
    if fields.len() == 0 {
        Seq::empty()
    } else if fields.len() == 1 {
        csv_escape(fields[0])
    } else {
        csv_fields(fields.drop_last()) + seq![','] + csv_escape(fields.last())
    }
}

/// One CSV record terminated by CRLF.
pub open spec fn csv_record(fields: Seq<Seq<char>>) -> Seq<char> {
    csv_fields(fields) + seq!['\r', '\n']
}

/// Collapses each doubled quote back to one quote.
pub open spec fn undouble_quotes(text: Seq<char>) -> Seq<char>
    decreases text.len(),
{
    if text.len() == 0 {
        Seq::empty()
    } else if text.len() >= 2 && text[0] == '"' && text[1] == '"' {
        seq!['"'] + undouble_quotes(text.skip(2))
    } else {
        seq![text[0]] + undouble_quotes(text.drop_first())
    }
}

/// Reads one encoded CSV field back: a quoted field loses its quotes and
/// its doubled quotes; any other field is taken as it is.
pub open spec fn csv_unescape(encoded: Seq<char>) -> Seq<char> {
    if encoded.len() >= 2 && encoded[0] == '"' && encoded.last() == '"' {
        undouble_quotes(encoded.subrange(1, encoded.len() - 1))
    } else {
        encoded
    }
}

proof fn lemma_undouble_double(field: Seq<char>)
    ensures
        undouble_quotes(double_quotes(field)) == field,
    decreases field.len(),
{
    if field.len() > 0 {
        lemma_undouble_double(field.drop_first());
        let rest = double_quotes(field.drop_first());
        if field[0] == '"' {
            let d = seq!['"', '"'] + rest;
            assert(d.skip(2) =~= rest);
            assert(undouble_quotes(d) == seq!['"'] + undouble_quotes(rest));
        } else {
            let d = seq![field[0]] + rest;
            assert(d.drop_first() =~= rest);
            assert(undouble_quotes(d) == seq![field[0]] + undouble_quotes(rest));
        }
        assert(seq![field[0]] + field.drop_first() =~= field);
    } else {
        assert(field =~= Seq::<char>::empty());
    }
}

/// CSV encoding is reversible: decoding an encoded field gives the field.
pub proof fn lemma_csv_round_trip(field: Seq<char>)
    ensures
        csv_unescape(csv_escape(field)) == field,
{
    if needs_quotes(field) {
        lemma_undouble_double(field);
        let e = seq!['"'] + double_quotes(field) + seq!['"'];
        assert(e.subrange(1, e.len() - 1) =~= double_quotes(field));
    } else {
        if field.len() >= 2 && field[0] == '"' {
            assert(has_char(field, '"'));
        }
    }
}

/// The number of quote characters in `text`.
pub open spec fn quote_count(text: Seq<char>) -> nat
    decreases text.len(),
{
    if text.len() == 0 {
        0
    } else {
        quote_count(text.drop_last()) + if text.last() == '"' {
            1nat
        } else {
            0nat
        }
    }
}

/// `text` split at every comma that stands outside quotes, that is after an
/// even number of quote characters.
pub open spec fn split_outside_quotes(text: Seq<char>) -> Seq<Seq<char>>
    decreases text.len(),
{
    if text.len() == 0 {
        seq![Seq::empty()]
    } else {
        let pieces = split_outside_quotes(text.drop_last());
        if text.last() == ',' && quote_count(text.drop_last()) % 2 == 0 {
            pieces.push(Seq::empty())
        } else {
            pieces.update(pieces.len() - 1, pieces.last().push(text.last()))
        }
    }
}

/// Reads a CSV record back into its fields: the closing line break is
/// dropped, the rest is split at the commas outside quotes, and every piece
/// is unescaped.
pub open spec fn read_csv_record(record: Seq<char>) -> Seq<Seq<char>> {
    split_outside_quotes(record.subrange(0, record.len() - 2)).map_values(
        |piece: Seq<char>| csv_unescape(piece),
    )
}

proof fn lemma_quote_count_append(a: Seq<char>, b: Seq<char>)
    ensures
        quote_count(a + b) == quote_count(a) + quote_count(b),
    decreases b.len(),
{
    if b.len() == 0 {
        assert(a + b =~= a);
    } else {
        lemma_quote_count_append(a, b.drop_last());
        assert((a + b).drop_last() =~= a + b.drop_last());
        assert((a + b).last() == b.last());
    }
}

proof fn lemma_no_quote_count(text: Seq<char>)
    requires
        !has_char(text, '"'),
    ensures
        quote_count(text) == 0,
    decreases text.len(),
{
    if text.len() > 0 {
        assert(text.drop_last().len() < text.len());
        assert(!has_char(text.drop_last(), '"')) by {
            if has_char(text.drop_last(), '"') {
                let i = choose|i: int| 0 <= i < text.drop_last().len() && text.drop_last()[i] == '"';
                assert(text[i] == '"');
            }
        }
        lemma_no_quote_count(text.drop_last());
        assert(text[text.len() - 1] != '"');
    }
}

proof fn lemma_split_nonempty(text: Seq<char>)
    ensures
        split_outside_quotes(text).len() >= 1,
    decreases text.len(),
{
    if text.len() > 0 {
        lemma_split_nonempty(text.drop_last());
    }
}

/// Appending text whose every comma stands inside quotes extends the last
/// piece.
proof fn lemma_split_extend(prefix: Seq<char>, more: Seq<char>)
    requires
        forall|j: int|
            0 <= j < more.len() && more[j] == ',' ==> quote_count(prefix + more.take(j)) % 2 == 1,
    ensures
        split_outside_quotes(prefix + more) == split_outside_quotes(prefix).update(
            split_outside_quotes(prefix).len() - 1,
            split_outside_quotes(prefix).last() + more,
        ),
    decreases more.len(),
{
    lemma_split_nonempty(prefix);
    let base = split_outside_quotes(prefix);
    if more.len() == 0 {
        assert(prefix + more =~= prefix);
        assert(base.last() + more =~= base.last());
        assert(base.update(base.len() - 1, base.last()) =~= base);
    } else {
        let shorter = more.drop_last();
        let c = more.last();
        assert forall|j: int| 0 <= j < shorter.len() && shorter[j] == ',' implies quote_count(
            prefix + shorter.take(j),
        ) % 2 == 1 by {
            assert(more[j] == ',');
            assert(shorter.take(j) =~= more.take(j));
        }
        lemma_split_extend(prefix, shorter);
        assert((prefix + more).drop_last() =~= prefix + shorter);
        assert((prefix + more).last() == c);
        if c == ',' {
            assert(more.take(more.len() - 1) =~= shorter);
        }
        let mid = split_outside_quotes(prefix + shorter);
        assert(mid.len() == base.len());
        assert(mid.last() == base.last() + shorter);
        assert((base.last() + shorter).push(c) =~= base.last() + more);
        assert(split_outside_quotes(prefix + more) =~= base.update(
            base.len() - 1,
            base.last() + more,
        ));
    }
}

proof fn lemma_quote_count_one(c: char)
    ensures
        quote_count(seq![c]) == if c == '"' {
            1nat
        } else {
            0nat
        },
{
    assert(seq![c].drop_last() =~= Seq::<char>::empty());
    assert(seq![c].last() == c);
    assert(quote_count(Seq::<char>::empty()) == 0);
    assert(quote_count(seq![c]) == quote_count(seq![c].drop_last()) + if seq![c].last() == '"' {
        1nat
    } else {
        0nat
    });
}

/// The encoding of a field's first character holds an even number of
/// quotes, and starts after none.
proof fn lemma_head_parity(c: char)
    ensures
        quote_count(if c == '"' {
            seq!['"', '"']
        } else {
            seq![c]
        }) % 2 == 0,
{
    lemma_quote_count_one(c);
    if c == '"' {
        assert(seq!['"', '"'] =~= seq!['"'] + seq!['"']);
        lemma_quote_count_append(seq!['"'], seq!['"']);
    }
}

/// Inside doubled quotes, every character that is not a quote stands after
/// an even number of quotes, and the whole holds an even number of them.
proof fn lemma_double_quotes_parity(field: Seq<char>)
    ensures
        quote_count(double_quotes(field)) % 2 == 0,
        forall|i: int|
            0 <= i < double_quotes(field).len() && double_quotes(field)[i] != '"' ==> quote_count(
                #[trigger] double_quotes(field).take(i),
            ) % 2 == 0,
    decreases field.len(),
{
    if field.len() == 0 {
        assert(quote_count(Seq::<char>::empty()) == 0);
    } else {
        let rest = double_quotes(field.drop_first());
        lemma_double_quotes_parity(field.drop_first());
        let head = if field[0] == '"' {
            seq!['"', '"']
        } else {
            seq![field[0]]
        };
        let d = double_quotes(field);
        assert(d == head + rest);
        lemma_head_parity(field[0]);
        lemma_quote_count_append(head, rest);
        assert forall|i: int| 0 <= i < d.len() && d[i] != '"' implies quote_count(
            #[trigger] d.take(i),
        ) % 2 == 0 by {
            if i < head.len() {
                assert(i == 0);
                assert(d.take(0) =~= Seq::<char>::empty());
            } else {
                assert(d.take(i) =~= head + rest.take(i - head.len()));
                lemma_quote_count_append(head, rest.take(i - head.len()));
                assert(rest[i - head.len()] == d[i]);
            }
        }
    }
}

/// In an encoded field every comma stands inside quotes, and the field
/// holds an even number of quotes.
proof fn lemma_escape_parity(field: Seq<char>)
    ensures
        quote_count(csv_escape(field)) % 2 == 0,
        forall|j: int|
            0 <= j < csv_escape(field).len() && csv_escape(field)[j] == ',' ==> quote_count(
                csv_escape(field).take(j),
            ) % 2 == 1,
{
    let e = csv_escape(field);
    if needs_quotes(field) {
        let d = double_quotes(field);
        lemma_double_quotes_parity(field);
        assert(e == seq!['"'] + d + seq!['"']);
        lemma_quote_count_append(seq!['"'], d);
        lemma_quote_count_append(seq!['"'] + d, seq!['"']);
        lemma_quote_count_one('"');
        assert forall|j: int| 0 <= j < e.len() && e[j] == ',' implies quote_count(e.take(j)) % 2
            == 1 by {
            assert(j != 0 && j != e.len() - 1);
            assert(d[j - 1] == e[j]);
            assert(e.take(j) =~= seq!['"'] + d.take(j - 1));
            lemma_quote_count_append(seq!['"'], d.take(j - 1));
        }
    } else {
        lemma_no_quote_count(field);
        assert forall|j: int| 0 <= j < e.len() && e[j] == ',' implies quote_count(e.take(j)) % 2
            == 1 by {
            assert(has_char(field, ','));
        }
    }
}

proof fn lemma_fields_split(fields: Seq<Seq<char>>)
    requires
        fields.len() >= 1,
    ensures
        quote_count(csv_fields(fields)) % 2 == 0,
        split_outside_quotes(csv_fields(fields)) == fields.map_values(
            |f: Seq<char>| csv_escape(f),
        ),
    decreases fields.len(),
{
    let last = fields.last();
    let e = csv_escape(last);
    lemma_escape_parity(last);
    if fields.len() == 1 {
        let empty = Seq::<char>::empty();
        assert forall|j: int| 0 <= j < e.len() && e[j] == ',' implies quote_count(
            empty + e.take(j),
        ) % 2 == 1 by {
            assert(empty + e.take(j) =~= e.take(j));
        }
        lemma_split_extend(empty, e);
        assert(empty + e =~= e);
        assert(split_outside_quotes(empty) =~= seq![empty]);
        assert(split_outside_quotes(csv_fields(fields)) =~= fields.map_values(
            |f: Seq<char>| csv_escape(f),
        ));
    } else {
        let init = fields.drop_last();
        lemma_fields_split(init);
        let p = csv_fields(init);
        let s = p.push(',');
        assert(s.drop_last() =~= p);
        assert(split_outside_quotes(s) == split_outside_quotes(p).push(Seq::empty()));
        lemma_quote_count_append(p, seq![',']);
        lemma_quote_count_one(',');
        assert(s == p + seq![',']);
        assert forall|j: int| 0 <= j < e.len() && e[j] == ',' implies quote_count(s + e.take(j))
            % 2 == 1 by {
            lemma_quote_count_append(s, e.take(j));
        }
        lemma_split_extend(s, e);
        assert(csv_fields(fields) == s + e);
        lemma_quote_count_append(s, e);
        let base = split_outside_quotes(s);
        assert(Seq::<char>::empty() + e =~= e);
        assert(split_outside_quotes(csv_fields(fields)) =~= fields.map_values(
            |f: Seq<char>| csv_escape(f),
        ));
    }
}

/// A field without a comma, a quote or a line break is written as it is; any
/// other field is enclosed in quotes.
pub proof fn lemma_plain_fields_are_verbatim(field: Seq<char>)
    ensures
        (forall|i: int|
            0 <= i < field.len() ==> field[i] != ',' && field[i] != '"' && field[i] != '\r'
                && field[i] != '\n') ==> csv_escape(field) == field,
        (exists|i: int|
            0 <= i < field.len() && (field[i] == ',' || field[i] == '"' || field[i] == '\r'
                || field[i] == '\n')) ==> csv_escape(field).len() >= 2 && csv_escape(field)[0]
            == '"' && csv_escape(field).last() == '"',
{
    if exists|i: int|
        0 <= i < field.len() && (field[i] == ',' || field[i] == '"' || field[i] == '\r' || field[i]
            == '\n') {
        let i = choose|i: int|
            0 <= i < field.len() && (field[i] == ',' || field[i] == '"' || field[i] == '\r'
                || field[i] == '\n');
        assert(needs_quotes(field)) by {
            assert(field[i] == field[i]);
        }
    }
}

/// A CSV record reads back as exactly the fields it encodes: splitting it
/// at the commas outside quotes gives one piece per field, and each piece
/// unescapes to its field. A field that holds a comma therefore never
/// splits into two.
pub proof fn lemma_csv_record_reads_back(fields: Seq<Seq<char>>)
    requires
        fields.len() >= 1,
    ensures
        read_csv_record(csv_record(fields)) == fields,
{
    lemma_fields_split(fields);
    let record = csv_record(fields);
    assert(record.subrange(0, record.len() - 2) =~= csv_fields(fields));
    let pieces = fields.map_values(|f: Seq<char>| csv_escape(f));
    assert forall|k: int| 0 <= k < fields.len() implies csv_unescape(pieces[k]) == fields[k] by {
        lemma_csv_round_trip(fields[k]);
    }
    assert(read_csv_record(record) =~= fields);
}

/// Appends the CSV encoding of `field`.
pub fn csv_field(output: &mut String, field: &str)
    ensures
        final(output)@ == old(output)@ + csv_escape(field@),
{
    let cs = chars_of(field);
    let mut quote = false;
    let mut i: usize = 0;
    while i < cs.len()
        invariant
            i <= cs@.len(),
            cs@ == field@,
            quote == exists|k: int|
                0 <= k < i && (cs@[k] == ',' || cs@[k] == '"' || cs@[k] == '\r' || cs@[k] == '\n'),
        decreases cs.len() - i,
    {
        let c = cs[i];
        if c == ',' || c == '"' || c == '\r' || c == '\n' {
            quote = true;
        }
        i = i + 1;
    }
    proof {
        if quote {
            let k = choose|k: int|
                0 <= k < cs@.len() && (cs@[k] == ',' || cs@[k] == '"' || cs@[k] == '\r' || cs@[k]
                    == '\n');
            assert(needs_quotes(field@)) by {
                assert(field@[k] == cs@[k]);
            }
        } else {
            assert(!has_char(field@, ',') && !has_char(field@, '"') && !has_char(field@, '\r')
                && !has_char(field@, '\n'));
        }
    }
    if !quote {
        push_text(output, field);
        return;
    }
    let ghost start = old(output)@;
    push_char(output, '"');
    let ghost s = cs@;
    let mut j: usize = 0;
    assert(s.skip(0) =~= s);
    while j < cs.len()
        invariant
            j <= cs@.len(),
            s == cs@,
            start + seq!['"'] + double_quotes(s) == output@ + double_quotes(s.skip(j as int)),
        decreases cs.len() - j,
    {
        let c = cs[j];
        let ghost before = output@;
        proof {
            assert(s.skip(j as int).drop_first() =~= s.skip(j + 1));
            assert(s.skip(j as int)[0] == c);
        }
        if c == '"' {
            push_char(output, '"');
            push_char(output, '"');
            assert(output@ =~= before + seq!['"', '"']);
        } else {
            push_char(output, c);
            assert(output@ =~= before + seq![c]);
        }
        j = j + 1;
    }
    assert(s.skip(s.len() as int) =~= Seq::<char>::empty());
    push_char(output, '"');
}

/// The views of a slice of strings.
pub open spec fn field_texts(fields: Seq<String>) -> Seq<Seq<char>> {
    fields.map_values(|f: String| f@)
}

/// Appends one CSV record: the encoded fields separated by commas, then CRLF.
pub fn csv_row(output: &mut String, fields: &[String])
    ensures
        final(output)@ == old(output)@ + csv_record(field_texts(fields@)),
{
    let ghost start = old(output)@;
    let mut i: usize = 0;
    while i < fields.len()
        invariant
            i <= fields@.len(),
            output@ == start + csv_fields(field_texts(fields@.take(i as int))),
        decreases fields.len() - i,
    {
        let ghost before = output@;
        if i != 0 {
            push_char(output, ',');
        }
        csv_field(output, fields[i].as_str());
        proof {
            let w = field_texts(fields@.take(i + 1));
            assert(w.drop_last() =~= field_texts(fields@.take(i as int)));
            assert(w.last() == fields@[i as int]@);
            if i == 0 {
                assert(csv_fields(field_texts(fields@.take(0))) =~= Seq::<char>::empty());
                assert(output@ =~= start + csv_fields(w));
            } else {
                assert(output@ =~= start + csv_fields(w));
            }
        }
        i = i + 1;
    }
    assert(fields@.take(fields@.len() as int) =~= fields@);
    let ghost body = output@;
    push_char(output, '\r');
    push_char(output, '\n');
    assert(output@ =~= body + seq!['\r', '\n']);
}

// ---------------------------------------------------------------------------
// JSON
// ---------------------------------------------------------------------------

/// Unicode control characters (general category `Cc`), as
/// `char::is_control` reports them.
pub open spec fn is_control(c: char) -> bool {
    (c as u32) < 0x20 || (0x7f <= (c as u32) && (c as u32) <= 0x9f)
}

/// The lowercase hexadecimal digit for `d` (0 through 15).
pub open spec fn hex_digit(d: int) -> char {
    if d < 10 {
        crate::text::digit_char(d)
    } else if d == 10 {
        'a'
    } else if d == 11 {
        'b'
    } else if d == 12 {
        'c'
    } else if d == 13 {
        'd'
    } else if d == 14 {
        'e'
    } else {
        'f'
    }
}

/// The JSON string-literal encoding of one character.
pub open spec fn json_escape_char(c: char) -> Seq<char> {
    if c == '"' {
        seq!['\\', '"']
    } else if c == '\\' {
        seq!['\\', '\\']
    } else if c == '\u{08}' {
        seq!['\\', 'b']
    } else if c == '\u{0C}' {
        seq!['\\', 'f']
    } else if c == '\n' {
        seq!['\\', 'n']
    } else if c == '\r' {
        seq!['\\', 'r']
    } else if c == '\t' {
        seq!['\\', 't']
    } else if is_control(c) {
        seq!['\\', 'u', '0', '0', hex_digit((c as u32) as int / 16), hex_digit((c as u32) as int % 16)]
    } else {
        seq![c]
    }
}

/// The JSON encoding of a string's content, without the surrounding quotes.
pub open spec fn json_escape(s: Seq<char>) -> Seq<char>
    decreases s.len(),
{
    if s.len() == 0 {
        Seq::empty()
    } else {
        json_escape_char(s[0]) + json_escape(s.drop_first())
    }
}

/// The complete JSON string literal for `s`.
pub open spec fn json_quoted(s: Seq<char>) -> Seq<char> {
    seq!['"'] + json_escape(s) + seq!['"']
}

/// The value of a hexadecimal digit, if `c` is one (either case).
pub open spec fn hex_value(c: char) -> Option<int> {
    let u = c as u32;
    if 0x30 <= u && u <= 0x39 {
        Some(u - 0x30)
    } else if 0x61 <= u && u <= 0x66 {
        Some(u - 0x61 + 10)
    } else if 0x41 <= u && u <= 0x46 {
        Some(u - 0x41 + 10)
    } else {
        None
    }
}

/// The character a `\uXXXX` escape with these four digits denotes, when the
/// digits are hexadecimal and the code point is not a surrogate.
pub open spec fn unicode_escape(a: char, b: char, c: char, d: char) -> Option<char> {
    match (hex_value(a), hex_value(b), hex_value(c), hex_value(d)) {
        (Some(x), Some(y), Some(z), Some(w)) => {
            let v = ((x * 16 + y) * 16 + z) * 16 + w;
            if 0xd800 <= v && v <= 0xdfff {
                None
            } else {
                Some(v as char)
            }
        },
        _ => None,
    }
}

/// Decodes the content of a JSON string literal (RFC 8259), or `None` when
/// it is not a valid content: an unescaped quote or control character, or an
/// unknown escape.
pub open spec fn json_unescape(s: Seq<char>) -> Option<Seq<char>>
    decreases s.len(),
{
    if s.len() == 0 {
        Some(Seq::empty())
    } else if s[0] == '\\' {
        if s.len() < 2 {
            None
        } else {
            let e = s[1];
            let simple: Option<char> = if e == '"' {
                Some('"')
            } else if e == '\\' {
                Some('\\')
            } else if e == '/' {
                Some('/')
            } else if e == 'b' {
                Some('\u{08}')
            } else if e == 'f' {
                Some('\u{0C}')
            } else if e == 'n' {
                Some('\n')
            } else if e == 'r' {
                Some('\r')
            } else if e == 't' {
                Some('\t')
            } else {
                None
            };
            match simple {
                Some(c) => match json_unescape(s.skip(2)) {
                    Some(rest) => Some(seq![c] + rest),
                    None => None,
                },
                None => if e == 'u' && s.len() >= 6 {
                    match unicode_escape(s[2], s[3], s[4], s[5]) {
                        Some(c) => match json_unescape(s.skip(6)) {
                            Some(rest) => Some(seq![c] + rest),
                            None => None,
                        },
                        None => None,
                    }
                } else {
                    None
                },
            }
        }
    } else if s[0] == '"' || (s[0] as u32) < 0x20 {
        None
    } else {
        match json_unescape(s.drop_first()) {
            Some(rest) => Some(seq![s[0]] + rest),
            None => None,
        }
    }
}

/// Reads a JSON string literal back, when it is one.
pub open spec fn json_unquote(literal: Seq<char>) -> Option<Seq<char>> {
    if literal.len() >= 2 && literal[0] == '"' && literal.last() == '"' {
        json_unescape(literal.subrange(1, literal.len() - 1))
    } else {
        None
    }
}

proof fn lemma_hex_digit_value(d: int)
    requires
        0 <= d < 16,
    ensures
        hex_value(hex_digit(d)) == Some(d),
{
}

proof fn lemma_json_escape_char_decodes(c: char, rest: Seq<char>, tail: Seq<char>)
    requires
        json_unescape(rest) == Some(tail),
    ensures
        json_unescape(json_escape_char(c) + rest) == Some(seq![c] + tail),
{
    let e = json_escape_char(c);
    let s = e + rest;
    let u = c as u32;
    if c == '"' || c == '\\' || c == '\u{08}' || c == '\u{0C}' || c == '\n' || c == '\r' || c
        == '\t' {
        assert(s.skip(2) =~= rest);
    } else if is_control(c) {
        assert(s.skip(6) =~= rest);
        let hi = (u as int) / 16;
        let lo = (u as int) % 16;
        lemma_hex_digit_value(hi);
        lemma_hex_digit_value(lo);
        assert(hex_value('0') == Some(0int));
        assert(((0 * 16 + 0) * 16 + hi) * 16 + lo == u as int);
        assert(s[2] == '0' && s[3] == '0' && s[4] == hex_digit(hi) && s[5] == hex_digit(lo));
        assert(unicode_escape(s[2], s[3], s[4], s[5]) == Some(c));
    } else {
        assert(s.drop_first() =~= rest);
    }
}

/// JSON string encoding is reversible: the literal decodes to the same text.
pub proof fn lemma_json_round_trip(s: Seq<char>)
    ensures
        json_unescape(json_escape(s)) == Some(s),
        json_unquote(json_quoted(s)) == Some(s),
    decreases s.len(),
{
    if s.len() == 0 {
        assert(json_escape(s) =~= Seq::<char>::empty());
    } else {
        lemma_json_round_trip(s.drop_first());
        lemma_json_escape_char_decodes(s[0], json_escape(s.drop_first()), s.drop_first());
        assert(seq![s[0]] + s.drop_first() =~= s);
    }
    let q = json_quoted(s);
    assert(q.subrange(1, q.len() - 1) =~= json_escape(s));
}

fn hex(d: u32) -> (r: char)
    requires
        d < 16,
    ensures
        r == hex_digit(d as int),
{
    match d {
        0 => '0',
        1 => '1',
        2 => '2',
        3 => '3',
        4 => '4',
        5 => '5',
        6 => '6',
        7 => '7',
        8 => '8',
        9 => '9',
        10 => 'a',
        11 => 'b',
        12 => 'c',
        13 => 'd',
        14 => 'e',
        _ => 'f',
    }
}

/// Encodes `value` as a complete JSON string literal, escaping quotes,
/// backslashes and every control character.
pub fn json_string(value: &str) -> (r: String)
    ensures
        r@ == json_quoted(value@),
{
    let cs = chars_of(value);
    let ghost s = cs@;
    let mut encoded = String::new();
    push_char(&mut encoded, '"');
    let mut i: usize = 0;
    assert(s.skip(0) =~= s);
    while i < cs.len()
        invariant
            i <= cs@.len(),
            s == cs@,
            s == value@,
            seq!['"'] + json_escape(s) == encoded@ + json_escape(s.skip(i as int)),
        decreases cs.len() - i,
    {
        let c = cs[i];
        let ghost before = encoded@;
        proof {
            assert(s.skip(i as int).drop_first() =~= s.skip(i + 1));
            assert(s.skip(i as int)[0] == c);
        }
        let u = c as u32;
        if c == '"' {
            push_char(&mut encoded, '\\');
            push_char(&mut encoded, '"');
        } else if c == '\\' {
            push_char(&mut encoded, '\\');
            push_char(&mut encoded, '\\');
        } else if c == '\u{08}' {
            push_char(&mut encoded, '\\');
            push_char(&mut encoded, 'b');
        } else if c == '\u{0C}' {
            push_char(&mut encoded, '\\');
            push_char(&mut encoded, 'f');
        } else if c == '\n' {
            push_char(&mut encoded, '\\');
            push_char(&mut encoded, 'n');
        } else if c == '\r' {
            push_char(&mut encoded, '\\');
            push_char(&mut encoded, 'r');
        } else if c == '\t' {
            push_char(&mut encoded, '\\');
            push_char(&mut encoded, 't');
        } else if u < 0x20 || (0x7f <= u && u <= 0x9f) {
            push_char(&mut encoded, '\\');
            push_char(&mut encoded, 'u');
            push_char(&mut encoded, '0');
            push_char(&mut encoded, '0');
            push_char(&mut encoded, hex(u / 16));
            push_char(&mut encoded, hex(u % 16));
        } else {
            push_char(&mut encoded, c);
        }
        assert(encoded@ =~= before + json_escape_char(c));
        i = i + 1;
    }
    assert(s.skip(s.len() as int) =~= Seq::<char>::empty());
    push_char(&mut encoded, '"');
    assert(encoded@ =~= json_quoted(value@));
    encoded
}

} // verus!
