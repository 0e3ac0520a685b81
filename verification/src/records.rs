use vstd::prelude::*;
use vstd::string::StringExecFns;

verus! {

/// One entry of a coding system: a short identifier, its human-readable
/// title, and the name of the coding system it belongs to.  The name is a
/// denormalized copy of the owning system's name, taken at construction
/// time on purpose: renaming the owning system later does not rewrite the
/// codes it already holds.
#[derive(Debug)]
pub struct Code {
    pub code: String,
    pub title: String,
    pub coding_system: String,
}

/// The mathematical value of a `Code`: its three fields as character
/// sequences.
pub ghost struct CodeView {
    pub code: Seq<char>,
    pub title: Seq<char>,
    pub coding_system: Seq<char>,
}

impl View for Code {
    type V = CodeView;

    open spec fn view(&self) -> CodeView {
        CodeView { code: self.code@, title: self.title@, coding_system: self.coding_system@ }
    }
}

impl PartialEq for Code {
    fn eq(&self, other: &Self) -> (r: bool) {
        self.code == other.code && self.title == other.title && self.coding_system
            == other.coding_system
    }
}

impl vstd::std_specs::cmp::PartialEqSpecImpl for Code {
    open spec fn obeys_eq_spec() -> bool {
        true
    }

    open spec fn eq_spec(&self, other: &Self) -> bool {
        self@ == other@
    }
}

impl Default for Code {
    /// The empty code: every field blank.
    fn default() -> (r: Self)
        ensures
            r@ == (CodeView {
                code: Seq::<char>::empty(),
                title: Seq::<char>::empty(),
                coding_system: Seq::<char>::empty(),
            }),
    {
        proof {
            reveal_strlit("");
            assert(""@ =~= Seq::<char>::empty());
        }
        Code::new("", "", "")
    }
}

/// Which required column a delimited record failed to provide.
#[derive(Clone, Copy, Debug, PartialEq, Eq, Structural)]
pub enum RowFault {
    MissingCode,
    MissingTitle,
}

impl Code {
    pub fn new(code: &str, title: &str, coding_system: &str) -> (r: Self)
        ensures
            r@ == (CodeView { code: code@, title: title@, coding_system: coding_system@ }),
    {
        Code {
            code: code.to_owned(),
            title: title.to_owned(),
            coding_system: coding_system.to_owned(),
        }
    }

    /// Build a `Code` from one delimited record: the field at `code_index`
    /// becomes the code and the field at `title_index` the title.  A record
    /// too short for `code_index` fails with `MissingCode`, one too short
    /// only for `title_index` with `MissingTitle`.
    pub fn from_record(
        rec: &Vec<String>,
        code_index: usize,
        title_index: usize,
        coding_system: &str,
    ) -> (r: Result<Self, RowFault>)
        ensures
            code_index < rec.len() && title_index < rec.len() ==> (r matches Ok(c) && c@ == (
            CodeView {
                code: rec@[code_index as int]@,
                title: rec@[title_index as int]@,
                coding_system: coding_system@,
            })),
            code_index >= rec.len() ==> r == Err::<Code, RowFault>(RowFault::MissingCode),
            code_index < rec.len() && title_index >= rec.len() ==> r == Err::<Code, RowFault>(
                RowFault::MissingTitle,
            ),
    {
        if code_index >= rec.len() {
            Err(RowFault::MissingCode)
        } else if title_index >= rec.len() {
            Err(RowFault::MissingTitle)
        } else {
            Ok(Code::new(rec[code_index].as_str(), rec[title_index].as_str(), coding_system))
        }
    }

    /// A one-line table rendering of the code: `| system | code | title`.
    pub fn display_string(&self) -> (r: String)
        ensures
            r@ == "| "@ + self.coding_system@ + " | "@ + self.code@ + " | "@ + self.title@,
    {
        let mut s: String = "| ".to_owned();
        s.append(self.coding_system.as_str());
        s.append(" | ");
        s.append(self.code.as_str());
        s.append(" | ");
        s.append(self.title.as_str());
        s
    }
}

/// A named coding system: the label callers supplied for it and the codes
/// parsed for it, in the order their rows were parsed.
#[derive(Debug)]
pub struct CodingSystem {
    pub name: String,
    pub codes: Vec<Code>,
}

impl CodingSystem {
    /// The codes as mathematical values, in order.
    pub open spec fn code_views(&self) -> Seq<CodeView> {
        self.codes@.map_values(|c: Code| c@)
    }

    /// Append one code, tagged with the system's current name, at the end.
    pub fn add_code(&mut self, code: &str, title: &str)
        ensures
            final(self).name == old(self).name,
            final(self).codes@.len() == old(self).codes@.len() + 1,
            final(self).codes@.drop_last() == old(self).codes@,
            final(self).codes@.last()@ == (CodeView {
                code: code@,
                title: title@,
                coding_system: old(self).name@,
            }),
    {
        let c = Code::new(code, title, self.name.as_str());
        self.codes.push(c);
        proof {
            assert(self.codes@.drop_last() =~= old(self).codes@);
        }
    }
}

/// One object of a JSON coding-system document:
/// `{"soc_code": ..., "title": ...}`.
#[derive(Debug)]
pub struct JsonLine {
    pub soc_code: String,
    pub title: String,
}

impl View for JsonLine {
    type V = (Seq<char>, Seq<char>);

    open spec fn view(&self) -> (Seq<char>, Seq<char>) {
        (self.soc_code@, self.title@)
    }
}

/// A job posting annotated with the occupation code it was classified under.
#[derive(Debug)]
pub struct JobDescription {
    pub job_title: String,
    pub job_task: String,
    pub occupation_code: Code,
}

impl JobDescription {
    pub fn new(job_title: &str, job_task: &str, occupation_code: Code) -> (r: Self)
        ensures
            r.job_title@ == job_title@,
            r.job_task@ == job_task@,
            r.occupation_code == occupation_code,
    {
        JobDescription { job_title: job_title.to_owned(), job_task: job_task.to_owned(), occupation_code }
    }

    /// The fields a cleared job description holds.
    pub open spec fn is_blank(&self) -> bool {
        &&& self.job_title@ == Seq::<char>::empty()
        &&& self.job_task@ == Seq::<char>::empty()
        &&& self.occupation_code@ == (CodeView {
            code: Seq::<char>::empty(),
            title: Seq::<char>::empty(),
            coding_system: Seq::<char>::empty(),
        })
    }

    /// Reset every field to its empty value.
    pub fn clear(&mut self)
        ensures
            final(self).is_blank(),
    {
        proof {
            reveal_strlit("");
            assert(""@ =~= Seq::<char>::empty());
        }
        self.job_task = "".to_owned();
        self.job_title = "".to_owned();
        self.occupation_code = Code::new("", "", "");
    }
}

impl Default for JobDescription {
    /// The blank job description.
    fn default() -> (r: Self)
        ensures
            r.is_blank(),
    {
        proof {
            reveal_strlit("");
            assert(""@ =~= Seq::<char>::empty());
        }
        JobDescription {
            job_title: "".to_owned(),
            job_task: "".to_owned(),
            occupation_code: Code::default(),
        }
    }
}

} // verus!
