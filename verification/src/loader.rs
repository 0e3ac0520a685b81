use vstd::prelude::*;
use crate::records::{Code, CodeView, CodingSystem, JsonLine, RowFault};
use crate::text::{line_seqs, split_lines, split_seq, split_str, string_views};

verus! {

/// Which parser a file-name extension selects.
#[derive(Clone, Copy, Debug, PartialEq, Eq, Structural)]
pub enum FileFormat {
    Csv,
    Tdt,
    Json,
}

/// A recovered per-row failure of a delimited load: the 1-based number of
/// the dropped line and the column it was missing.
#[derive(Clone, Copy, Debug, PartialEq, Eq, Structural)]
pub struct RowWarning {
    pub line: usize,
    pub fault: RowFault,
}

/// The mathematical value of a `RowWarning`.
pub ghost struct WarningView {
    pub line: int,
    pub fault: RowFault,
}

impl View for RowWarning {
    type V = WarningView;

    open spec fn view(&self) -> WarningView {
        WarningView { line: self.line as int, fault: self.fault }
    }
}

/// The extension hint of a file name or URL: the text after the last `.`,
/// or nothing when the name holds no `.` (a split without a `.` has a
/// single field).
pub open spec fn extension_of(name: Seq<char>) -> Option<Seq<char>> {
    if split_seq(name, '.').len() >= 2 {
        Some(split_seq(name, '.').last())
    } else {
        None
    }
}

/// The parser a hint selects; matching is exact and case-sensitive.
pub open spec fn format_of(ext: Seq<char>) -> Option<FileFormat> {
    if ext == "csv"@ {
        Some(FileFormat::Csv)
    } else if ext == "tdt"@ {
        Some(FileFormat::Tdt)
    } else if ext == "json"@ {
        Some(FileFormat::Json)
    } else {
        None
    }
}

/// The parser a name selects, if any: a name without an extension hint
/// selects none.
pub open spec fn format_of_name(name: Seq<char>) -> Option<FileFormat> {
    match extension_of(name) {
        Some(e) => format_of(e),
        None => None,
    }
}

/// The fields of one data row: the row split at every occurrence of the
/// delimiter.  The row grammar is a plain token model on purpose, so
/// quoting is not interpreted: a quoted field keeps its quotes, and a
/// delimiter between quotes still ends a field.
pub open spec fn row_fields(line: Seq<char>, d: char) -> Seq<Seq<char>> {
    split_seq(line, d)
}

/// The column a row too short for two fields is missing.
pub open spec fn fault_of(fields: Seq<Seq<char>>) -> RowFault {
    if fields.len() == 0 {
        RowFault::MissingCode
    } else {
        RowFault::MissingTitle
    }
}

/// The codes parsed out of `lines`: one per row with at least two fields,
/// in input order; fields 0 and 1 become code and title, and every code
/// carries the coding-system name `sys`.
pub open spec fn codes_of_lines(lines: Seq<Seq<char>>, d: char, sys: Seq<char>) -> Seq<CodeView>
    decreases lines.len(),
{
    if lines.len() == 0 {
        Seq::<CodeView>::empty()
    } else {
        let fs = row_fields(lines.last(), d);
        codes_of_lines(lines.drop_last(), d, sys) + (if fs.len() >= 2 {
            seq![CodeView { code: fs[0], title: fs[1], coding_system: sys }]
        } else {
            Seq::<CodeView>::empty()
        })
    }
}

/// The warnings of a delimited load: one per row with fewer than two
/// fields, carrying the row's 1-based line number, in input order.
pub open spec fn warnings_of_lines(lines: Seq<Seq<char>>, d: char) -> Seq<WarningView>
    decreases lines.len(),
{
    if lines.len() == 0 {
        Seq::<WarningView>::empty()
    } else {
        warnings_of_lines(lines.drop_last(), d) + (if row_fields(lines.last(), d).len() < 2 {
            seq![WarningView { line: lines.len() as int, fault: fault_of(row_fields(lines.last(), d)) }]
        } else {
            Seq::<WarningView>::empty()
        })
    }
}

/// The views of a vector of codes.
pub open spec fn code_views(v: Seq<Code>) -> Seq<CodeView> {
    v.map_values(|c: Code| c@)
}

/// The views of a vector of warnings.
pub open spec fn warning_views(v: Seq<RowWarning>) -> Seq<WarningView> {
    v.map_values(|w: RowWarning| w@)
}

/// Parse a delimited text: every row with at least two fields becomes a
/// code, every shorter row a warning with its 1-based line number.
pub fn parse_delimited(content: &str, delim: char, coding_system: &str) -> (r: (
    Vec<Code>,
    Vec<RowWarning>,
))
    ensures
        code_views(r.0@) == codes_of_lines(line_seqs(content@), delim, coding_system@),
        warning_views(r.1@) == warnings_of_lines(line_seqs(content@), delim),
{
    let lines = split_lines(content);
    let ghost lv = line_seqs(content@);
    let mut codes: Vec<Code> = Vec::new();
    let mut warnings: Vec<RowWarning> = Vec::new();
    proof {
        assert(lv.take(0) =~= Seq::<Seq<char>>::empty());
        assert(code_views(codes@) =~= Seq::<CodeView>::empty());
        assert(warning_views(warnings@) =~= Seq::<WarningView>::empty());
    }
    let n = lines.len();
    for i in 0..n
        invariant
            n == lines.len(),
            string_views(lines@) == lv,
            code_views(codes@) == codes_of_lines(lv.take(i as int), delim, coding_system@),
            warning_views(warnings@) == warnings_of_lines(lv.take(i as int), delim),
    {
        let fields = split_str(lines[i].as_str(), delim);
        let ghost fs = row_fields(lv[i as int], delim);
        proof {
            assert(lines@[i as int]@ == lv[i as int]);
            assert(string_views(fields@) == fs);
            assert(lv.take(i as int + 1).drop_last() =~= lv.take(i as int));
            assert(lv.take(i as int + 1).last() == lv[i as int]);
        }
        let ghost old_codes = codes@;
        let ghost old_warnings = warnings@;
        match Code::from_record(&fields, 0, 1, coding_system) {
            Ok(code) => {
                proof {
                    assert(fields@[0]@ == fs[0]);
                    assert(fields@[1]@ == fs[1]);
                }
                codes.push(code);
                proof {
                    assert(code_views(codes@) =~= code_views(old_codes).push(
                        CodeView { code: fs[0], title: fs[1], coding_system: coding_system@ },
                    ));
                    assert(code_views(codes@) =~= codes_of_lines(
                        lv.take(i as int + 1),
                        delim,
                        coding_system@,
                    ));
                    assert(warning_views(warnings@) =~= warnings_of_lines(
                        lv.take(i as int + 1),
                        delim,
                    ));
                }
            },
            Err(fault) => {
                proof {
                    assert(fields@.len() < 2);
                    assert(fs.len() < 2);
                    assert(fault == fault_of(fs));
                }
                warnings.push(RowWarning { line: i + 1, fault });
                proof {
                    assert(warning_views(warnings@) =~= warning_views(old_warnings).push(
                        WarningView { line: i as int + 1, fault: fault_of(fs) },
                    ));
                    assert(warning_views(warnings@) =~= warnings_of_lines(
                        lv.take(i as int + 1),
                        delim,
                    ));
                    assert(code_views(codes@) =~= codes_of_lines(
                        lv.take(i as int + 1),
                        delim,
                        coding_system@,
                    ));
                }
            },
        }
    }
    proof {
        assert(lv.take(n as int) =~= lv);
    }
    (codes, warnings)
}

/// One decoded JSON object field: its value's text when the value is a
/// JSON string, or nothing for a value of any other type.
pub type JsonFieldView = (Seq<char>, Option<Seq<char>>);

/// What a decoded JSON document holds, if it is an array of objects: for
/// each object, its fields in ascending key order, a field's text kept
/// when its value is a JSON string and marked absent otherwise.  Fields
/// other than soc_code and title may hold values of any type; they are
/// carried as absent and ignored.  `None` for every document that is not
/// an array of objects.
pub uninterp spec fn json_table(s: Seq<char>) -> Option<Seq<Seq<JsonFieldView>>>;

/// The view of one decoded object's field list.
pub open spec fn object_view(o: Vec<(String, Option<String>)>) -> Seq<JsonFieldView> {
    o@.map_values(
        |p: (String, Option<String>)|
            (
                p.0@,
                match p.1 {
                    Some(v) => Some(v@),
                    None => None::<Seq<char>>,
                },
            ),
    )
}

/// The view of a decoded table.
pub open spec fn table_view(t: Seq<Vec<(String, Option<String>)>>) -> Seq<Seq<JsonFieldView>> {
    t.map_values(|o: Vec<(String, Option<String>)>| object_view(o))
}

/// Relies on `serde_json::from_str`, decoding the text as a JSON array of
/// objects: whether that succeeds, and on success each object's fields in
/// ascending key order — a field's text when its value is a JSON string,
/// absent for a value of any other type — depend on the text alone.  On
/// failure the decoder's diagnostic is handed back.
#[verifier::external_body]
fn decode_json_objects(s: &str) -> (r: Result<Vec<Vec<(String, Option<String>)>>, String>)
    ensures
        r is Ok <==> json_table(s@) is Some,
        r matches Ok(t) ==> table_view(t@) == json_table(s@).unwrap(),
{
    match serde_json::from_str::<Vec<std::collections::BTreeMap<String, serde_json::Value>>>(s) {
        Ok(v) => Ok(
            v.into_iter().map(
                |m|
                    m.into_iter().map(
                        |(k, v)| match v {
                            serde_json::Value::String(t) => (k, Some(t)),
                            _ => (k, None),
                        },
                    ).collect(),
            ).collect(),
        ),
        Err(e) => Err(e.to_string()),
    }
}

/// The value of the first field of `obj` named `key`: `Some(Some(text))`
/// for a string field, `Some(None)` for a field of another type, `None`
/// when no field has the name.
pub open spec fn field_entry(obj: Seq<JsonFieldView>, key: Seq<char>) -> Option<Option<Seq<char>>>
    decreases obj.len(),
{
    if obj.len() == 0 {
        None
    } else if obj[0].0 == key {
        Some(obj[0].1)
    } else {
        field_entry(obj.drop_first(), key)
    }
}

/// The text of the field of `obj` named `key`, when the field is there
/// and its value is a string.
pub open spec fn field_value(obj: Seq<JsonFieldView>, key: Seq<char>) -> Option<Seq<char>> {
    match field_entry(obj, key) {
        Some(v) => v,
        None => None,
    }
}

/// Find the text of the field of `obj` named `key`, if the field is there
/// and holds a string.
fn lookup_field(obj: &Vec<(String, Option<String>)>, key: &String) -> (r: Option<String>)
    ensures
        match r {
            Some(v) => field_value(object_view(*obj), key@) == Some(v@),
            None => field_value(object_view(*obj), key@) is None,
        },
{
    let n = obj.len();
    proof {
        assert(object_view(*obj).skip(0) =~= object_view(*obj));
    }
    for i in 0..n
        invariant
            n == obj.len(),
            field_entry(object_view(*obj), key@) == field_entry(
                object_view(*obj).skip(i as int),
                key@,
            ),
    {
        proof {
            assert(object_view(*obj).skip(i as int)[0] == object_view(*obj)[i as int]);
            assert(object_view(*obj)[i as int].0 == obj@[i as int].0@);
            assert(object_view(*obj).skip(i as int).drop_first() =~= object_view(*obj).skip(
                i as int + 1,
            ));
        }
        if obj[i].0 == *key {
            match &obj[i].1 {
                Some(v) => {
                    proof {
                        assert(object_view(*obj)[i as int].1 == Some(v@));
                    }
                    return Some(v.clone());
                },
                None => {
                    proof {
                        assert(object_view(*obj)[i as int].1 is None);
                    }
                    return None;
                },
            }
        }
    }
    proof {
        assert(object_view(*obj).skip(n as int) =~= Seq::<JsonFieldView>::empty());
    }
    None
}

/// The soc_code and title fields of one decoded object, if both are there
/// with string values.
pub open spec fn json_line_of(obj: Seq<JsonFieldView>) -> Option<(Seq<char>, Seq<char>)> {
    if field_value(obj, "soc_code"@) is Some && field_value(obj, "title"@) is Some {
        Some((field_value(obj, "soc_code"@).unwrap(), field_value(obj, "title"@).unwrap()))
    } else {
        None
    }
}

/// Whether every object of a decoded table has both required fields, each
/// with a string value.
pub open spec fn table_well_formed(t: Seq<Seq<JsonFieldView>>) -> bool {
    forall|i: int| 0 <= i < t.len() ==> json_line_of(#[trigger] t[i]) is Some
}

/// The codes a well-formed decoded table maps to: one per object, in
/// order, soc_code to code and title to title, each carrying `sys`.
pub open spec fn codes_of_table(t: Seq<Seq<JsonFieldView>>, sys: Seq<char>) -> Seq<
    CodeView,
> {
    t.map_values(
        |obj: Seq<JsonFieldView>|
            (CodeView {
                code: json_line_of(obj).unwrap().0,
                title: json_line_of(obj).unwrap().1,
                coding_system: sys,
            }),
    )
}

/// Extract the soc_code and title of every decoded object; `None` when
/// some object is missing either field or holds it with a non-string
/// value.
pub fn json_lines_from_table(table: &Vec<Vec<(String, Option<String>)>>) -> (r: Option<
    Vec<JsonLine>,
>)
    ensures
        r is Some <==> table_well_formed(table_view(table@)),
        r matches Some(v) ==> {
            &&& v@.len() == table@.len()
            &&& forall|i: int|
                0 <= i < v@.len() ==> #[trigger] v@[i]@ == json_line_of(
                    table_view(table@)[i],
                ).unwrap()
        },
{
    let soc_key: String = "soc_code".to_owned();
    let title_key: String = "title".to_owned();
    let mut out: Vec<JsonLine> = Vec::new();
    let n = table.len();
    for i in 0..n
        invariant
            n == table.len(),
            soc_key@ == "soc_code"@,
            title_key@ == "title"@,
            out@.len() == i,
            forall|j: int|
                0 <= j < i ==> json_line_of(#[trigger] table_view(table@)[j]) is Some,
            forall|j: int|
                0 <= j < i ==> #[trigger] out@[j]@ == json_line_of(table_view(table@)[j]).unwrap(),
    {
        proof {
            assert(table_view(table@)[i as int] == object_view(table@[i as int]));
        }
        let code = match lookup_field(&table[i], &soc_key) {
            Some(c) => c,
            None => {
                proof {
                    assert(json_line_of(table_view(table@)[i as int]) is None);
                }
                return None;
            },
        };
        let title = match lookup_field(&table[i], &title_key) {
            Some(t) => t,
            None => {
                proof {
                    assert(json_line_of(table_view(table@)[i as int]) is None);
                }
                return None;
            },
        };
        out.push(JsonLine { soc_code: code, title });
    }
    Some(out)
}

/// Turn extracted JSON lines into codes carrying the system name.
pub fn codes_from_json_lines(lines: &Vec<JsonLine>, coding_system: &str) -> (r: Vec<Code>)
    ensures
        r@.len() == lines@.len(),
        forall|i: int|
            0 <= i < lines@.len() ==> #[trigger] r@[i]@ == (CodeView {
                code: lines@[i]@.0,
                title: lines@[i]@.1,
                coding_system: coding_system@,
            }),
{
    let mut out: Vec<Code> = Vec::new();
    let n = lines.len();
    for i in 0..n
        invariant
            n == lines.len(),
            out@.len() == i,
            forall|j: int|
                0 <= j < i ==> #[trigger] out@[j]@ == (CodeView {
                    code: lines@[j]@.0,
                    title: lines@[j]@.1,
                    coding_system: coding_system@,
                }),
    {
        let c = Code::new(lines[i].soc_code.as_str(), lines[i].title.as_str(), coding_system);
        out.push(c);
    }
    out
}

/// A failure fatal to a whole load: no codes are returned alongside one.
#[derive(Debug)]
pub enum LoadError {
    /// The extension hint selects no parser; the hint is carried along.
    UnsupportedFormat { extension: String },
    /// The document of an all-or-nothing format could not be decoded; the
    /// decoder's diagnostic is carried along.
    ParseError { message: String },
}

/// What a load returns for a given file name, content and system name:
/// dispatch on the extension hint, per-row fault tolerance for the
/// delimited formats, all-or-nothing decoding for JSON.  A name without a
/// `.`, or one whose hint matches no format, fails the whole load; the
/// unsupported-format error carries the hint, or the whole name when it
/// holds no `.`.
pub open spec fn load_spec(
    r: Result<(CodingSystem, Vec<RowWarning>), LoadError>,
    filename: Seq<char>,
    content: Seq<char>,
    sys: Seq<char>,
) -> bool {
    let fmt = format_of_name(filename);
    match r {
        Ok(p) => {
            &&& fmt is Some
            &&& p.0.name@ == sys
            &&& match fmt.unwrap() {
                FileFormat::Csv => {
                    &&& code_views(p.0.codes@) == codes_of_lines(line_seqs(content), ',', sys)
                    &&& warning_views(p.1@) == warnings_of_lines(line_seqs(content), ',')
                },
                FileFormat::Tdt => {
                    &&& code_views(p.0.codes@) == codes_of_lines(line_seqs(content), '\t', sys)
                    &&& warning_views(p.1@) == warnings_of_lines(line_seqs(content), '\t')
                },
                FileFormat::Json => {
                    &&& json_table(content) is Some
                    &&& table_well_formed(json_table(content).unwrap())
                    &&& code_views(p.0.codes@) == codes_of_table(json_table(content).unwrap(), sys)
                    &&& p.1@.len() == 0
                },
            }
        },
        Err(e) => match e {
            LoadError::UnsupportedFormat { extension } => {
                &&& fmt is None
                &&& match extension_of(filename) {
                    Some(e) => extension@ == e,
                    None => extension@ == filename,
                }
            },
            LoadError::ParseError { .. } => {
                &&& fmt == Some(FileFormat::Json)
                &&& (json_table(content) is None || !table_well_formed(json_table(content).unwrap()))
            },
        },
    }
}

/// Parse `content` as the coding system named `coding_system_name`,
/// choosing the parser by the extension hint at the end of `filename`.
/// Rows of a delimited document that lack a column are dropped with a
/// warning; a missing or unrecognized extension, or an undecodable JSON
/// document, fails the whole load.
pub fn load_coding_system(filename: &str, content: &str, coding_system_name: &str) -> (r: Result<
    (CodingSystem, Vec<RowWarning>),
    LoadError,
>)
    ensures
        load_spec(r, filename@, content@, coding_system_name@),
        r matches Ok(p) ==> forall|i: int|
            0 <= i < p.0.codes@.len() ==> #[trigger] p.0.codes@[i]@.coding_system
                == coding_system_name@,
{
    let parts = split_str(filename, '.');
    if parts.len() < 2 {
        proof {
            assert(extension_of(filename@) is None);
        }
        return Err(LoadError::UnsupportedFormat { extension: filename.to_owned() });
    }
    let ext: &String = &parts[parts.len() - 1];
    proof {
        assert(extension_of(filename@) == Some(ext@));
    }
    let csv_name: String = "csv".to_owned();
    let tdt_name: String = "tdt".to_owned();
    let json_name: String = "json".to_owned();
    if *ext == csv_name {
        let (codes, warnings) = parse_delimited(content, ',', coding_system_name);
        proof {
            lemma_codes_of_lines_system(line_seqs(content@), ',', coding_system_name@);
            assert forall|i: int| 0 <= i < codes@.len() implies #[trigger] codes@[i]@.coding_system
                == coding_system_name@ by {
                assert(codes@[i]@ == code_views(codes@)[i]);
            }
        }
        Ok((CodingSystem { name: coding_system_name.to_owned(), codes }, warnings))
    } else if *ext == tdt_name {
        let (codes, warnings) = parse_delimited(content, '\t', coding_system_name);
        proof {
            lemma_codes_of_lines_system(line_seqs(content@), '\t', coding_system_name@);
            assert forall|i: int| 0 <= i < codes@.len() implies #[trigger] codes@[i]@.coding_system
                == coding_system_name@ by {
                assert(codes@[i]@ == code_views(codes@)[i]);
            }
        }
        Ok((CodingSystem { name: coding_system_name.to_owned(), codes }, warnings))
    } else if *ext == json_name {
        match decode_json_objects(content) {
            Err(message) => Err(LoadError::ParseError { message }),
            Ok(table) => match json_lines_from_table(&table) {
                None => Err(
                    LoadError::ParseError {
                        message: "an object is missing a string soc_code or title field".to_owned(),
                    },
                ),
                Some(lines) => {
                    let codes = codes_from_json_lines(&lines, coding_system_name);
                    proof {
                        let t = json_table(content@).unwrap();
                        assert(code_views(codes@) =~= codes_of_table(t, coding_system_name@));
                        assert forall|i: int|
                            0 <= i < codes@.len() implies #[trigger] codes@[i]@.coding_system
                            == coding_system_name@ by {
                            assert(codes@[i]@ == code_views(codes@)[i]);
                        }
                    }
                    Ok((CodingSystem { name: coding_system_name.to_owned(), codes }, Vec::new()))
                },
            },
        }
    } else {
        Err(LoadError::UnsupportedFormat { extension: ext.clone() })
    }
}

/// Every code a sequence of lines parses to carries the system name it was
/// parsed with.
pub proof fn lemma_codes_of_lines_system(lines: Seq<Seq<char>>, d: char, sys: Seq<char>)
    ensures
        forall|i: int|
            0 <= i < codes_of_lines(lines, d, sys).len() ==> #[trigger] codes_of_lines(
                lines,
                d,
                sys,
            )[i].coding_system == sys,
    decreases lines.len(),
{
    if lines.len() == 0 {
    } else {
        lemma_codes_of_lines_system(lines.drop_last(), d, sys);
        let pre = codes_of_lines(lines.drop_last(), d, sys);
        let all = codes_of_lines(lines, d, sys);
        assert forall|i: int| 0 <= i < all.len() implies #[trigger] all[i].coding_system
            == sys by {
            if i < pre.len() {
                assert(all[i] == pre[i]);
            }
        }
    }
}

impl CodingSystem {
    /// Parse comma-delimited text into a coding system named
    /// `coding_system`, together with the warnings for the dropped rows.
    pub fn from_csv_text(content: &str, coding_system: &str) -> (r: (CodingSystem, Vec<RowWarning>))
        ensures
            r.0.name@ == coding_system@,
            code_views(r.0.codes@) == codes_of_lines(line_seqs(content@), ',', coding_system@),
            warning_views(r.1@) == warnings_of_lines(line_seqs(content@), ','),
    {
        let (codes, warnings) = parse_delimited(content, ',', coding_system);
        (CodingSystem { name: coding_system.to_owned(), codes }, warnings)
    }
}

} // verus!
