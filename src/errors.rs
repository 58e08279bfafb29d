use vstd::prelude::*;
use vstd::string::{StrSliceExecFns, StringExecFns};

verus! {

/// What an operation on the records can fail with.
#[derive(Debug)]
pub enum ServerError {
    /// A lookup found no row; holds the names of the offending fields.
    InvalidValue(Vec<String>),
    /// A row would refer to a row that does not exist, or a row that others
    /// refer to would go; holds the constraint's message.
    InvalidForeignKey(String),
    /// A date or timestamp did not parse, or does not exist in storage form.
    InvalidDate,
    /// Required form fields were missing or could not be read.
    NullValues(Vec<String>),
    /// The store ran out of identifiers.
    InternalError,
}

/// The position of the last `.` among the first `n` characters of `s`, or
/// -1 where there is none.
pub open spec fn last_dot(s: Seq<char>, n: int) -> int
    decreases n,
{
    if n <= 0 {
        -1
    } else if s[n - 1] == '.' {
        n - 1
    } else {
        last_dot(s, n - 1)
    }
}

pub open spec fn label_char(c: char) -> char {
    if c == '_' {
        ' '
    } else {
        c
    }
}

/// How a form field is named to the user: the last segment of its path
/// (after the last `.`), with each `_` shown as a space.
pub open spec fn field_label(path: Seq<char>) -> Seq<char> {
    path.subrange(last_dot(path, path.len() as int) + 1, path.len() as int).map_values(
        |c: char| label_char(c),
    )
}

/// Where the last segment of `path` starts.
fn segment_start(path: &str) -> (r: usize)
    ensures
        r as int == last_dot(path@, path@.len() as int) + 1,
{
    let n = path.unicode_len();
    let mut k: usize = n;
    while k > 0
        invariant
            n == path@.len(),
            k <= n,
            last_dot(path@, n as int) == last_dot(path@, k as int),
        decreases k,
    {
        if path.get_char(k - 1) == '.' {
            return k;
        }
        k = k - 1;
    }
    0
}

/// The label of the form field at `path`.
pub fn field_label_of(path: &str) -> (r: String)
    ensures
        r@ == field_label(path@),
{
    let n = path.unicode_len();
    let start = segment_start(path);
    proof {
        assert(-1 <= last_dot(path@, n as int) < n) by {
            lemma_last_dot_range(path@, n as int);
        }
    }
    let mut out = String::new();
    let mut run: usize = start;
    let mut i: usize = start;
    while i < n
        invariant
            n == path@.len(),
            start <= run <= i <= n,
            out@ == path@.subrange(start as int, run as int).map_values(|c: char| label_char(c)),
            forall|k: int| run <= k < i ==> path@[k] != '_',
        decreases n - i,
    {
        if path.get_char(i) == '_' {
            let piece = path.substring_char(run, i);
            out.append(piece);
            out.append(" ");
            proof {
                reveal_strlit(" ");
                assert(path@.subrange(start as int, i as int + 1).map_values(|c: char| label_char(c))
                    =~= path@.subrange(start as int, run as int).map_values(|c: char| label_char(c))
                    + piece@ + " "@);
            }
            run = i + 1;
        }
        i = i + 1;
    }
    let piece = path.substring_char(run, n);
    out.append(piece);
    proof {
        assert(path@.subrange(start as int, n as int).map_values(|c: char| label_char(c))
            =~= path@.subrange(start as int, run as int).map_values(|c: char| label_char(c)) + piece@);
    }
    out
}

proof fn lemma_last_dot_range(s: Seq<char>, n: int)
    requires
        0 <= n <= s.len(),
    ensures
        -1 <= last_dot(s, n) < n,
    decreases n,
{
    if n > 0 {
        lemma_last_dot_range(s, n - 1);
    }
}

/// The field name reported by a failed lookup by id.
pub open spec fn id_field() -> Seq<char> {
    seq!['I', 'd']
}

impl ServerError {
    /// The error a lookup by id gives when no row has that id.
    pub open spec fn is_not_found(&self) -> bool {
        &&& self matches ServerError::InvalidValue(fields)
        &&& fields@.len() == 1
        &&& fields@[0]@ == id_field()
    }

    /// `NullValues` naming, by their labels, the form fields at `paths`.
    pub fn null_values(paths: &Vec<String>) -> (e: ServerError)
        ensures
            e matches ServerError::NullValues(names) && names@.len() == paths@.len()
                && forall|i: int| 0 <= i < paths@.len() ==> #[trigger] names@[i]@ == field_label(paths@[i]@),
    {
        let mut names: Vec<String> = Vec::new();
        let mut i: usize = 0;
        while i < paths.len()
            invariant
                i <= paths@.len(),
                names@.len() == i,
                forall|k: int| 0 <= k < i ==> #[trigger] names@[k]@ == field_label(paths@[k]@),
            decreases paths@.len() - i,
        {
            names.push(field_label_of(paths[i].as_str()));
            i = i + 1;
        }
        ServerError::NullValues(names)
    }

    /// `InvalidValue(["Id"])`.
    pub fn not_found() -> (e: ServerError)
        ensures
            e.is_not_found(),
    {
        let name = String::from_str("Id");
        proof {
            reveal_strlit("Id");
        }
        assert(name@ =~= id_field());
        let mut fields: Vec<String> = Vec::new();
        fields.push(name);
        ServerError::InvalidValue(fields)
    }
}

} // verus!
