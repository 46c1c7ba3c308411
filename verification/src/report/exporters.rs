//! Reports and their formats: a report has a title, a table (headers and
//! rows) and a summary of named values; an exporter writes it as CSV, JSON
//! or Markdown.
use vstd::prelude::*;
use vstd::string::StringExecFns;
use vstd::string::StrSliceExecFns;
use serde_json::Value;
use crate::text::{concat_str, str_eq};

verus! {

/// The texts of a list of strings.
pub open spec fn texts_of(v: Seq<String>) -> Seq<Seq<char>> {
    v.map_values(|s: String| s@)
}

/// The texts of a table of strings.
pub open spec fn table_texts(rows: Seq<Vec<String>>) -> Seq<Seq<Seq<char>>> {
    rows.map_values(|r: Vec<String>| texts_of(r@))
}

/// The texts of a list of pairs of strings.
pub open spec fn pair_texts(v: Seq<(String, String)>) -> Seq<(Seq<char>, Seq<char>)> {
    v.map_values(|p: (String, String)| (p.0@, p.1@))
}

/// Data that can be exported: a title, column headers, rows, and a summary.
pub trait ReportData {
    /// The title.
    spec fn title_view(&self) -> Seq<char>;

    /// The column headers.
    spec fn headers_view(&self) -> Seq<Seq<char>>;

    /// The rows, each a list of cells.
    spec fn rows_view(&self) -> Seq<Seq<Seq<char>>>;

    /// The summary, as (name, value) pairs.
    spec fn summary_view(&self) -> Seq<(Seq<char>, Seq<char>)>;

    /// The report's title.
    fn title(&self) -> (r: &str)
        ensures
            r@ == self.title_view();

    /// The column headers.
    fn headers(&self) -> (r: Vec<String>)
        ensures
            texts_of(r@) == self.headers_view();

    /// The data rows.
    fn rows(&self) -> (r: Vec<Vec<String>>)
        ensures
            table_texts(r@) == self.rows_view();

    /// The summary statistics, as (name, value) pairs.
    fn summary(&self) -> (r: Vec<(String, String)>)
        ensures
            pair_texts(r@) == self.summary_view();
}

/// A way of writing a report out.
pub trait ReportExporter {
    /// The report in this format.
    fn export<R: ReportData>(&self, report: &R) -> String;

    /// The file extension of this format.
    fn extension(&self) -> &'static str;

    /// The MIME type of this format.
    fn mime_type(&self) -> &'static str;
}

/// Texts joined by a separator.
pub open spec fn joined(parts: Seq<Seq<char>>, sep: Seq<char>) -> Seq<char>
    decreases parts.len(),
{
    if parts.len() == 0 {
        Seq::empty()
    } else if parts.len() == 1 {
        parts[0]
    } else {
        joined(parts.drop_last(), sep) + sep + parts.last()
    }
}

/// Appends texts joined by a separator.
fn push_joined(s: &mut String, parts: &Vec<String>, sep: &str)
    ensures
        final(s)@ == old(s)@ + joined(texts_of(parts@), sep@),
{
    let ghost start = s@;
    let mut i: usize = 0;
    while i < parts.len()
        invariant
            i <= parts@.len(),
            s@ == start + joined(texts_of(parts@.subrange(0, i as int)), sep@),
        decreases parts@.len() - i,
    {
        proof {
            let t = texts_of(parts@.subrange(0, i as int + 1));
            assert(t.drop_last() =~= texts_of(parts@.subrange(0, i as int)));
            assert(t.last() == parts@[i as int]@);
        }
        if i > 0 {
            s.append(sep);
        }
        s.append(parts[i].as_str());
        proof {
            let t = texts_of(parts@.subrange(0, i as int + 1));
            if i == 0 {
                assert(texts_of(parts@.subrange(0, 0)) =~= Seq::<Seq<char>>::empty());
                assert(s@ =~= start + joined(t, sep@));
            } else {
                assert(s@ =~= start + joined(t, sep@));
            }
        }
        i = i + 1;
    }
    proof {
        assert(parts@.subrange(0, parts@.len() as int) == parts@);
    }
}

// ---------------------------------------------------------------------------
// CSV
// ---------------------------------------------------------------------------

/// The text with each double quote doubled.
pub open spec fn doubled_quotes(f: Seq<char>) -> Seq<char>
    decreases f.len(),
{
    if f.len() == 0 {
        Seq::empty()
    } else {
        doubled_quotes(f.drop_last()) + if f.last() == '"' { seq!['"', '"'] } else { seq![f.last()] }
    }
}

/// A CSV cell: quoted, with its quotes doubled, when it holds the
/// delimiter, a double quote or a line break; as it is otherwise.
pub open spec fn csv_cell(f: Seq<char>, delimiter: char) -> Seq<char> {
    if f.contains(delimiter) || f.contains('"') || f.contains('\n') {
        seq!['"'] + doubled_quotes(f) + seq!['"']
    } else {
        f
    }
}

/// A CSV line: the cells, each escaped, joined by the delimiter, and a line break.
pub open spec fn csv_line(cells: Seq<Seq<char>>, delimiter: char) -> Seq<char> {
    joined(cells.map_values(|c: Seq<char>| csv_cell(c, delimiter)), seq![delimiter]) + seq!['\n']
}

/// CSV lines for rows, in order.
pub open spec fn csv_lines(rows: Seq<Seq<Seq<char>>>, delimiter: char) -> Seq<char>
    decreases rows.len(),
{
    if rows.len() == 0 {
        Seq::empty()
    } else {
        csv_lines(rows.drop_last(), delimiter) + csv_line(rows.last(), delimiter)
    }
}

/// A report as CSV: the header line when asked for, then one line per row.
pub open spec fn csv_text(delimiter: char, include_header: bool, headers: Seq<Seq<char>>,
    rows: Seq<Seq<Seq<char>>>) -> Seq<char>
{
    (if include_header { csv_line(headers, delimiter) } else { Seq::empty() }) + csv_lines(rows, delimiter)
}

/// The CSV format.
#[derive(Debug)]
pub struct CsvExporter {
    delimiter: char,
    include_header: bool,
}

/// Whether a text holds a character.
fn has_char(s: &str, c: char) -> (r: bool)
    ensures
        r == s@.contains(c),
{
    let n = s.unicode_len();
    let mut i: usize = 0;
    while i < n
        invariant
            n == s@.len(),
            i <= n,
            forall|j: int| 0 <= j < i ==> s@[j] != c,
        decreases n - i,
    {
        if s.get_char(i) == c {
            assert(s@[i as int] == c);
            return true;
        }
        i = i + 1;
    }
    false
}

impl CsvExporter {
    /// The delimiter.
    pub closed spec fn delimiter_char(&self) -> char {
        self.delimiter
    }

    /// Whether the header line is written.
    pub closed spec fn writes_header(&self) -> bool {
        self.include_header
    }

    /// CSV with commas and a header line.
    pub fn new() -> (r: CsvExporter)
        ensures
            r.delimiter_char() == ',',
            r.writes_header(),
    {
        CsvExporter { delimiter: ',', include_header: true }
    }

    /// The exporter with another delimiter.
    pub fn with_delimiter(self, delimiter: char) -> (r: CsvExporter)
        ensures
            r.delimiter_char() == delimiter,
            r.writes_header() == self.writes_header(),
    {
        CsvExporter { delimiter, ..self }
    }

    /// The exporter without the header line.
    pub fn without_header(self) -> (r: CsvExporter)
        ensures
            r.delimiter_char() == self.delimiter_char(),
            !r.writes_header(),
    {
        CsvExporter { include_header: false, ..self }
    }

    /// One cell, escaped for CSV.
    pub fn escape_csv_field(&self, field: &str) -> (r: String)
        ensures
            r@ == csv_cell(field@, self.delimiter_char()),
    {
        if has_char(field, self.delimiter) || has_char(field, '"') || has_char(field, '\n') {
            let n = field.unicode_len();
            let mut s = String::new();
            proof {
                reveal_strlit("\"");
                reveal_strlit("\"\"");
                assert("\"\""@ =~= seq!['"', '"']);
                assert("\""@ =~= seq!['"']);
            }
            s.append("\"");
            let mut i: usize = 0;
            while i < n
                invariant
                    n == field@.len(),
                    i <= n,
                    s@ == seq!['"'] + doubled_quotes(field@.subrange(0, i as int)),
                decreases n - i,
            {
                let c = field.get_char(i);
                proof {
                    assert(field@.subrange(0, i as int + 1).drop_last() =~= field@.subrange(0, i as int));
                    assert(field@.subrange(0, i as int + 1).last() == c);
                }
                if c == '"' {
                    proof {
                        reveal_strlit("\"\"");
                        assert("\"\""@ =~= seq!['"', '"']);
                    }
                    s.append("\"\"");
                } else {
                    let one = field.substring_char(i, i + 1);
                    proof { assert(one@ =~= seq![c]); }
                    s.append(one);
                }
                proof {
                    assert(s@ =~= seq!['"'] + doubled_quotes(field@.subrange(0, i as int + 1)));
                }
                i = i + 1;
            }
            s.append("\"");
            proof {
                assert(field@.subrange(0, n as int) == field@);
                assert(s@ =~= seq!['"'] + doubled_quotes(field@) + seq!['"']);
            }
            s
        } else {
            field.to_string()
        }
    }

    /// Appends one CSV line.
    fn push_line(&self, s: &mut String, cells: &Vec<String>)
        ensures
            final(s)@ == old(s)@ + csv_line(texts_of(cells@), self.delimiter_char()),
    {
        let mut escaped: Vec<String> = Vec::new();
        let mut i: usize = 0;
        while i < cells.len()
            invariant
                i <= cells@.len(),
                escaped@.len() == i,
                forall|j: int| 0 <= j < i ==> #[trigger] escaped@[j]@ == csv_cell(cells@[j]@, self.delimiter_char()),
            decreases cells@.len() - i,
        {
            escaped.push(self.escape_csv_field(cells[i].as_str()));
            i = i + 1;
        }
        let d = char_string(self.delimiter);
        push_joined(s, &escaped, d.as_str());
        proof { reveal_strlit("\n"); }
        s.append("\n");
        proof {
            assert(texts_of(escaped@) =~= texts_of(cells@).map_values(|c: Seq<char>| csv_cell(c, self.delimiter_char())));
        }
    }
}

/// A one-character string.
fn char_string(c: char) -> (r: String)
    ensures
        r@ == seq![c],
{
    let mut s = String::new();
    push_char(&mut s, c);
    s
}

/// `String::push`: appends a character.
#[verifier::external_body]
fn push_char(s: &mut String, c: char)
    ensures
        final(s)@ == old(s)@.push(c),
{
    s.push(c)
}

impl ReportExporter for CsvExporter {
    fn export<R: ReportData>(&self, report: &R) -> (r: String)
        ensures
            r@ == csv_text(self.delimiter_char(), self.writes_header(), report.headers_view(), report.rows_view()),
    {
        let mut output = String::new();
        if self.include_header {
            let headers = report.headers();
            self.push_line(&mut output, &headers);
        }
        let ghost head = output@;
        let rows = report.rows();
        let mut i: usize = 0;
        while i < rows.len()
            invariant
                i <= rows@.len(),
                table_texts(rows@) == report.rows_view(),
                output@ == head + csv_lines(table_texts(rows@.subrange(0, i as int)), self.delimiter_char()),
            decreases rows@.len() - i,
        {
            proof {
                let t = table_texts(rows@.subrange(0, i as int + 1));
                assert(t.drop_last() =~= table_texts(rows@.subrange(0, i as int)));
                assert(t.last() == texts_of(rows@[i as int]@));
            }
            self.push_line(&mut output, &rows[i]);
            i = i + 1;
        }
        proof {
            assert(rows@.subrange(0, rows@.len() as int) == rows@);
            assert(Seq::<char>::empty() + head == head);
        }
        output
    }

    fn extension(&self) -> (r: &'static str)
        ensures
            r@ == "csv"@,
    {
        proof { reveal_strlit("csv"); }
        "csv"
    }

    fn mime_type(&self) -> (r: &'static str)
        ensures
            r@ == "text/csv"@,
    {
        proof { reveal_strlit("text/csv"); }
        "text/csv"
    }
}

// ---------------------------------------------------------------------------
// JSON
// ---------------------------------------------------------------------------

/// A member of a JSON object, of the kinds a report document holds: a
/// string, an object of strings, or an array of such objects.
pub enum JsonField {
    Text(String),
    Object(Vec<(String, String)>),
    Objects(Vec<Vec<(String, String)>>),
}

/// The texts a member holds.
pub enum JsonFieldView {
    Text(Seq<char>),
    Object(Seq<(Seq<char>, Seq<char>)>),
    Objects(Seq<Seq<(Seq<char>, Seq<char>)>>),
}

/// The texts of rows of (name, value) pairs.
pub open spec fn object_texts(data: Seq<Vec<(String, String)>>) -> Seq<Seq<(Seq<char>, Seq<char>)>> {
    data.map_values(|o: Vec<(String, String)>| pair_texts(o@))
}

impl View for JsonField {
    type V = JsonFieldView;

    open spec fn view(&self) -> JsonFieldView {
        match self {
            JsonField::Text(t) => JsonFieldView::Text(t@),
            JsonField::Object(o) => JsonFieldView::Object(pair_texts(o@)),
            JsonField::Objects(os) => JsonFieldView::Objects(object_texts(os@)),
        }
    }
}

/// A JSON object: its members, in order.
pub struct JsonObject {
    pub members: Vec<(String, JsonField)>,
}

impl View for JsonObject {
    type V = Seq<(Seq<char>, JsonFieldView)>;

    open spec fn view(&self) -> Seq<(Seq<char>, JsonFieldView)> {
        self.members@.map_values(|m: (String, JsonField)| (m.0@, m.1@))
    }
}

/// What `serde_json::to_string_pretty` prints for an object with these
/// members.
pub uninterp spec fn json_pretty_text(doc: Seq<(Seq<char>, JsonFieldView)>) -> Seq<char>;

/// What `serde_json::to_string` prints for an object with these members.
pub uninterp spec fn json_compact_text(doc: Seq<(Seq<char>, JsonFieldView)>) -> Seq<char>;

/// The document a report is written as in JSON:
/// `{"title": title, "summary": {name: value, ...}, "data": [{header: cell, ...}, ...]}`.
pub open spec fn report_document(title: Seq<char>, summary: Seq<(Seq<char>, Seq<char>)>,
    data: Seq<Seq<(Seq<char>, Seq<char>)>>) -> Seq<(Seq<char>, JsonFieldView)>
{
    seq![
        ("title"@, JsonFieldView::Text(title)),
        ("summary"@, JsonFieldView::Object(summary)),
        ("data"@, JsonFieldView::Objects(data)),
    ]
}

/// `serde_json::to_string_pretty` of the object, converted member for
/// member into a `serde_json::Value` (a later member or pair with the same
/// name replaces an earlier one, as a JSON map's insertion does). The
/// result is named.
#[verifier::external_body]
fn json_pretty(doc: &JsonObject) -> (r: String)
    ensures
        r@ == json_pretty_text(doc@),
{
    let object = |ps: &Vec<(String, String)>| Value::Object(ps.iter().map(|(k, v)| (k.clone(), Value::String(v.clone()))).collect());
    let value = Value::Object(doc.members.iter().map(|(k, f)| (k.clone(), match f {
        JsonField::Text(t) => Value::String(t.clone()),
        JsonField::Object(o) => object(o),
        JsonField::Objects(os) => Value::Array(os.iter().map(object).collect()),
    })).collect());
    serde_json::to_string_pretty(&value).unwrap_or_default()
}

/// `serde_json::to_string` of the object, converted as above. The result
/// is named.
#[verifier::external_body]
fn json_compact(doc: &JsonObject) -> (r: String)
    ensures
        r@ == json_compact_text(doc@),
{
    let object = |ps: &Vec<(String, String)>| Value::Object(ps.iter().map(|(k, v)| (k.clone(), Value::String(v.clone()))).collect());
    let value = Value::Object(doc.members.iter().map(|(k, f)| (k.clone(), match f {
        JsonField::Text(t) => Value::String(t.clone()),
        JsonField::Object(o) => object(o),
        JsonField::Objects(os) => Value::Array(os.iter().map(object).collect()),
    })).collect());
    serde_json::to_string(&value).unwrap_or_default()
}

/// A row as (header, cell) pairs: each header with the cell in its column,
/// or an empty text when the row is shorter.
pub open spec fn row_object(headers: Seq<Seq<char>>, row: Seq<Seq<char>>) -> Seq<(Seq<char>, Seq<char>)> {
    Seq::new(headers.len(), |i: int| (headers[i], if i < row.len() { row[i] } else { Seq::<char>::empty() }))
}

/// The JSON format.
#[derive(Debug)]
pub struct JsonExporter {
    pretty: bool,
}

impl JsonExporter {
    /// Whether the output is indented.
    pub closed spec fn is_pretty(&self) -> bool {
        self.pretty
    }

    /// Indented JSON.
    pub fn new() -> (r: JsonExporter)
        ensures
            r.is_pretty(),
    {
        JsonExporter { pretty: true }
    }

    /// Compact JSON.
    pub fn compact(self) -> (r: JsonExporter)
        ensures
            !r.is_pretty(),
    {
        JsonExporter { pretty: false }
    }
}

impl ReportExporter for JsonExporter {
    fn export<R: ReportData>(&self, report: &R) -> (r: String)
        ensures
            self.is_pretty() ==> r@ == json_pretty_text(report_document(report.title_view(), report.summary_view(),
                report.rows_view().map_values(|row: Seq<Seq<char>>| row_object(report.headers_view(), row)))),
            !self.is_pretty() ==> r@ == json_compact_text(report_document(report.title_view(), report.summary_view(),
                report.rows_view().map_values(|row: Seq<Seq<char>>| row_object(report.headers_view(), row)))),
    {
        let headers = report.headers();
        let rows = report.rows();
        let summary = report.summary();
        let mut data: Vec<Vec<(String, String)>> = Vec::new();
        let mut i: usize = 0;
        while i < rows.len()
            invariant
                i <= rows@.len(),
                data@.len() == i,
                forall|k: int| 0 <= k < i ==> #[trigger] pair_texts(data@[k]@)
                    == row_object(texts_of(headers@), texts_of(rows@[k]@)),
            decreases rows@.len() - i,
        {
            let row = &rows[i];
            let mut obj: Vec<(String, String)> = Vec::new();
            let mut j: usize = 0;
            while j < headers.len()
                invariant
                    j <= headers@.len(),
                    obj@.len() == j,
                    forall|q: int| 0 <= q < j ==> #[trigger] pair_texts(obj@)[q]
                        == row_object(texts_of(headers@), texts_of(row@))[q],
                decreases headers@.len() - j,
            {
                let cell = if j < row.len() { row[j].clone() } else { String::new() };
                let ghost prev = obj@;
                obj.push((headers[j].clone(), cell));
                proof {
                    assert(texts_of(headers@)[j as int] == headers@[j as int]@);
                    if j < row@.len() {
                        assert(texts_of(row@)[j as int] == row@[j as int]@);
                    }
                    assert(pair_texts(obj@)[j as int] == (headers@[j as int]@, cell@));
                    assert forall|q: int| 0 <= q < j implies #[trigger] pair_texts(obj@)[q]
                        == row_object(texts_of(headers@), texts_of(row@))[q] by {
                        assert(obj@[q] == prev[q]);
                        assert(pair_texts(prev)[q] == row_object(texts_of(headers@), texts_of(row@))[q]);
                    }
                }
                j = j + 1;
            }
            proof {
                assert(pair_texts(obj@) =~= row_object(texts_of(headers@), texts_of(row@)));
            }
            data.push(obj);
            i = i + 1;
        }
        proof {
            assert(object_texts(data@) =~= report.rows_view().map_values(
                |row: Seq<Seq<char>>| row_object(report.headers_view(), row)));
        }
        let ghost rows_doc = object_texts(data@);
        let ghost summary_doc = pair_texts(summary@);
        let mut members: Vec<(String, JsonField)> = Vec::new();
        members.push((String::from_str("title"), JsonField::Text(String::from_str(report.title()))));
        members.push((String::from_str("summary"), JsonField::Object(summary)));
        members.push((String::from_str("data"), JsonField::Objects(data)));
        let doc = JsonObject { members };
        proof {
            assert(doc@ =~= report_document(report.title_view(), summary_doc, rows_doc));
        }
        if self.pretty {
            json_pretty(&doc)
        } else {
            json_compact(&doc)
        }
    }

    fn extension(&self) -> (r: &'static str)
        ensures
            r@ == "json"@,
    {
        proof { reveal_strlit("json"); }
        "json"
    }

    fn mime_type(&self) -> (r: &'static str)
        ensures
            r@ == "application/json"@,
    {
        proof { reveal_strlit("application/json"); }
        "application/json"
    }
}


// ---------------------------------------------------------------------------
// Markdown
// ---------------------------------------------------------------------------

/// A Markdown table line: "| a | b | c |".
pub open spec fn md_line(cells: Seq<Seq<char>>) -> Seq<char> {
    "| "@ + joined(cells, " | "@) + " |\n"@
}

/// Markdown table lines for rows, in order.
pub open spec fn md_lines(rows: Seq<Seq<Seq<char>>>) -> Seq<char>
    decreases rows.len(),
{
    if rows.len() == 0 {
        Seq::empty()
    } else {
        md_lines(rows.drop_last()) + md_line(rows.last())
    }
}

/// Summary items: "- **name**: value", one per line.
pub open spec fn md_summary_items(summary: Seq<(Seq<char>, Seq<char>)>) -> Seq<char>
    decreases summary.len(),
{
    if summary.len() == 0 {
        Seq::empty()
    } else {
        md_summary_items(summary.drop_last()) + "- **"@ + summary.last().0 + "**: "@ + summary.last().1 + "\n"@
    }
}

/// A report as Markdown: the title, the table of contents when asked for,
/// the summary when asked for, and the data table (when there are headers).
pub open spec fn markdown_text(include_summary: bool, include_toc: bool, title: Seq<char>,
    summary: Seq<(Seq<char>, Seq<char>)>, headers: Seq<Seq<char>>, rows: Seq<Seq<Seq<char>>>) -> Seq<char>
{
    "# "@ + title + "\n\n"@
        + (if include_toc {
            "## Table of Contents\n\n"@ + (if include_summary { "- [Summary](#summary)\n"@ } else { Seq::empty() })
                + "- [Data](#data)\n\n"@
        } else { Seq::empty() })
        + (if include_summary { "## Summary\n\n"@ + md_summary_items(summary) + "\n"@ } else { Seq::empty() })
        + "## Data\n\n"@
        + (if headers.len() > 0 {
            md_line(headers) + md_line(Seq::new(headers.len(), |i: int| "---"@)) + md_lines(rows)
        } else { Seq::empty() })
}

/// The Markdown format.
#[derive(Debug)]
pub struct MarkdownExporter {
    include_summary: bool,
    include_toc: bool,
}

impl MarkdownExporter {
    /// Whether the summary section is written.
    pub closed spec fn writes_summary(&self) -> bool {
        self.include_summary
    }

    /// Whether the table of contents is written.
    pub closed spec fn writes_toc(&self) -> bool {
        self.include_toc
    }

    /// Markdown with a summary and no table of contents.
    pub fn new() -> (r: MarkdownExporter)
        ensures
            r.writes_summary(),
            !r.writes_toc(),
    {
        MarkdownExporter { include_summary: true, include_toc: false }
    }

    /// The exporter without the summary section.
    pub fn without_summary(self) -> (r: MarkdownExporter)
        ensures
            !r.writes_summary(),
            r.writes_toc() == self.writes_toc(),
    {
        MarkdownExporter { include_summary: false, ..self }
    }

    /// The exporter with a table of contents.
    pub fn with_toc(self) -> (r: MarkdownExporter)
        ensures
            r.writes_summary() == self.writes_summary(),
            r.writes_toc(),
    {
        MarkdownExporter { include_toc: true, ..self }
    }
}

/// Appends a Markdown table line.
fn push_md_line(s: &mut String, cells: &Vec<String>)
    ensures
        final(s)@ == old(s)@ + md_line(texts_of(cells@)),
{
    proof { reveal_strlit("| "); reveal_strlit(" | "); reveal_strlit(" |\n"); }
    s.append("| ");
    push_joined(s, cells, " | ");
    s.append(" |\n");
}

impl ReportExporter for MarkdownExporter {
    #[verifier::spinoff_prover]
    #[verifier::rlimit(40)]
    fn export<R: ReportData>(&self, report: &R) -> (r: String)
        ensures
            r@ == markdown_text(self.writes_summary(), self.writes_toc(), report.title_view(), report.summary_view(),
                report.headers_view(), report.rows_view()),
    {
        proof {
            reveal_strlit("# ");
            reveal_strlit("\n\n");
            reveal_strlit("## Table of Contents\n\n");
            reveal_strlit("- [Summary](#summary)\n");
            reveal_strlit("- [Data](#data)\n\n");
            reveal_strlit("## Summary\n\n");
            reveal_strlit("- **");
            reveal_strlit("**: ");
            reveal_strlit("\n");
            reveal_strlit("## Data\n\n");
            reveal_strlit("---");
        }
        let mut output = concat_str("# ", report.title());
        output.append("\n\n");
        let ghost part1 = output@;
        if self.include_toc {
            output.append("## Table of Contents\n\n");
            if self.include_summary {
                output.append("- [Summary](#summary)\n");
            }
            output.append("- [Data](#data)\n\n");
        }
        let ghost part2 = output@;
        if self.include_summary {
            output.append("## Summary\n\n");
            let summary = report.summary();
            let ghost base = output@;
            let mut i: usize = 0;
            while i < summary.len()
                invariant
                    i <= summary@.len(),
                    pair_texts(summary@) == report.summary_view(),
                    output@ == base + md_summary_items(pair_texts(summary@.subrange(0, i as int))),
                decreases summary@.len() - i,
            {
                proof {
                    reveal_strlit("- **");
                    reveal_strlit("**: ");
                    reveal_strlit("\n");
                    let t = pair_texts(summary@.subrange(0, i as int + 1));
                    assert(t.drop_last() =~= pair_texts(summary@.subrange(0, i as int)));
                    assert(t.last() == (summary@[i as int].0@, summary@[i as int].1@));
                }
                output.append("- **");
                output.append(summary[i].0.as_str());
                output.append("**: ");
                output.append(summary[i].1.as_str());
                output.append("\n");
                i = i + 1;
            }
            proof {
                reveal_strlit("\n");
                assert(summary@.subrange(0, summary@.len() as int) == summary@);
            }
            output.append("\n");
        }
        let ghost part3 = output@;
        output.append("## Data\n\n");
        let ghost part4 = output@;
        let headers = report.headers();
        if headers.len() > 0 {
            push_md_line(&mut output, &headers);
            let mut dashes: Vec<String> = Vec::new();
            let mut k: usize = 0;
            while k < headers.len()
                invariant
                    k <= headers@.len(),
                    dashes@.len() == k,
                    forall|q: int| 0 <= q < k ==> (#[trigger] dashes@[q])@ == "---"@,
                decreases headers@.len() - k,
            {
                dashes.push(String::from_str("---"));
                k = k + 1;
            }
            proof {
                assert(texts_of(dashes@) =~= Seq::new(headers@.len(), |i: int| "---"@));
            }
            push_md_line(&mut output, &dashes);
            let rows = report.rows();
            let ghost base = output@;
            let mut i: usize = 0;
            while i < rows.len()
                invariant
                    i <= rows@.len(),
                    table_texts(rows@) == report.rows_view(),
                    output@ == base + md_lines(table_texts(rows@.subrange(0, i as int))),
                decreases rows@.len() - i,
            {
                proof {
                    let t = table_texts(rows@.subrange(0, i as int + 1));
                    assert(t.drop_last() =~= table_texts(rows@.subrange(0, i as int)));
                    assert(t.last() == texts_of(rows@[i as int]@));
                }
                push_md_line(&mut output, &rows[i]);
                i = i + 1;
            }
            proof {
                assert(rows@.subrange(0, rows@.len() as int) == rows@);
            }
        }
        proof {
            assert(output@ =~= markdown_text(self.writes_summary(), self.writes_toc(), report.title_view(),
                report.summary_view(), report.headers_view(), report.rows_view()));
        }
        output
    }

    fn extension(&self) -> (r: &'static str)
        ensures
            r@ == "md"@,
    {
        proof { reveal_strlit("md"); }
        "md"
    }

    fn mime_type(&self) -> (r: &'static str)
        ensures
            r@ == "text/markdown"@,
    {
        proof { reveal_strlit("text/markdown"); }
        "text/markdown"
    }
}

/// A copy of a list of strings.
fn copy_texts(v: &Vec<String>) -> (r: Vec<String>)
    ensures
        texts_of(r@) == texts_of(v@),
{
    let mut out: Vec<String> = Vec::new();
    let mut i: usize = 0;
    while i < v.len()
        invariant
            i <= v@.len(),
            out@.len() == i,
            forall|k: int| 0 <= k < i ==> (#[trigger] out@[k])@ == v@[k]@,
        decreases v@.len() - i,
    {
        out.push(v[i].clone());
        i = i + 1;
    }
    proof { assert(texts_of(out@) =~= texts_of(v@)); }
    out
}

/// A report given by its parts, as they are to be written.
#[derive(Debug)]
pub struct TableReport {
    pub title: String,
    pub headers: Vec<String>,
    pub rows: Vec<Vec<String>>,
    pub summary: Vec<(String, String)>,
}

impl ReportData for TableReport {
    open spec fn title_view(&self) -> Seq<char> {
        self.title@
    }

    open spec fn headers_view(&self) -> Seq<Seq<char>> {
        texts_of(self.headers@)
    }

    open spec fn rows_view(&self) -> Seq<Seq<Seq<char>>> {
        table_texts(self.rows@)
    }

    open spec fn summary_view(&self) -> Seq<(Seq<char>, Seq<char>)> {
        pair_texts(self.summary@)
    }

    fn title(&self) -> (r: &str) {
        self.title.as_str()
    }

    fn headers(&self) -> (r: Vec<String>) {
        copy_texts(&self.headers)
    }

    fn rows(&self) -> (r: Vec<Vec<String>>) {
        let mut out: Vec<Vec<String>> = Vec::new();
        let mut i: usize = 0;
        while i < self.rows.len()
            invariant
                i <= self.rows@.len(),
                out@.len() == i,
                forall|k: int| 0 <= k < i ==> texts_of((#[trigger] out@[k])@) == texts_of(self.rows@[k]@),
            decreases self.rows@.len() - i,
        {
            out.push(copy_texts(&self.rows[i]));
            i = i + 1;
        }
        proof { assert(table_texts(out@) =~= table_texts(self.rows@)); }
        out
    }

    fn summary(&self) -> (r: Vec<(String, String)>) {
        let mut out: Vec<(String, String)> = Vec::new();
        let mut i: usize = 0;
        while i < self.summary.len()
            invariant
                i <= self.summary@.len(),
                out@.len() == i,
                forall|k: int| 0 <= k < i ==> (#[trigger] out@[k]).0@ == self.summary@[k].0@
                    && out@[k].1@ == self.summary@[k].1@,
            decreases self.summary@.len() - i,
        {
            out.push((self.summary[i].0.clone(), self.summary[i].1.clone()));
            i = i + 1;
        }
        proof { assert(pair_texts(out@) =~= pair_texts(self.summary@)); }
        out
    }
}

} // verus!
