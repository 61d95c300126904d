//! A job: one package at one exact version.
use vstd::prelude::*;
use vstd::string::*;

verus! {

broadcast use vstd::string::group_string_axioms;

/// One unit of work: a package name and the version of it to analyse.
#[derive(Clone, Debug)]
pub struct Job {
    pub name: String,
    pub version: String,
}

impl View for Job {
    type V = (Seq<char>, Seq<char>);

    open spec fn view(&self) -> (Seq<char>, Seq<char>) {
        (self.name@, self.version@)
    }
}

/// The views of a sequence of jobs.
pub open spec fn job_views(s: Seq<Job>) -> Seq<(Seq<char>, Seq<char>)> {
    s.map_values(|j: Job| j@)
}

/// `name==version`, the form in which a job is requested and listed.
pub open spec fn job_text(j: (Seq<char>, Seq<char>)) -> Seq<char> {
    j.0 + seq!['=', '='] + j.1
}

/// Where the output of a job is kept: `logs/<name>/<version>`.
pub open spec fn artifact_path_of(j: (Seq<char>, Seq<char>)) -> Seq<char> {
    artifact_dir_of(j) + seq!['/'] + j.1
}

/// The directory of a package's artifacts: `logs/<name>`.
pub open spec fn artifact_dir_of(j: (Seq<char>, Seq<char>)) -> Seq<char> {
    seq!['l', 'o', 'g', 's', '/'] + j.0
}

impl Job {
    pub fn new(name: String, version: String) -> (r: Job)
        ensures
            r.name == name,
            r.version == version,
    {
        Job { name, version }
    }

    /// A copy of this job.
    pub fn duplicate(&self) -> (r: Job)
        ensures
            r@ == self@,
    {
        Job { name: self.name.clone(), version: self.version.clone() }
    }

    /// Whether two jobs name the same package and version.
    pub fn same_as(&self, other: &Job) -> (r: bool)
        ensures
            r == (self@ == other@),
    {
        self.name == other.name && self.version == other.version
    }

    /// `name==version`, without a line end.
    pub fn text(&self) -> (r: String)
        ensures
            r@ == job_text(self@),
    {
        let mut s = self.name.clone();
        s.append("==");
        s.append(self.version.as_str());
        proof {
            reveal_strlit("==");
        }
        s
    }

    /// The request that hands this job to a child: `name==version` and a line end.
    pub fn request_line(&self) -> (r: String)
        ensures
            r@ == job_text(self@) + seq!['\n'],
    {
        let mut s = self.text();
        s.append("\n");
        proof {
            reveal_strlit("\n");
        }
        s
    }

    /// The directory that holds this package's artifacts.
    pub fn artifact_dir(&self) -> (r: String)
        ensures
            r@ == artifact_dir_of(self@),
    {
        let mut s = String::from_str("logs/");
        s.append(self.name.as_str());
        proof {
            reveal_strlit("logs/");
        }
        s
    }

    /// The file that holds this job's output.
    pub fn artifact_path(&self) -> (r: String)
        ensures
            r@ == artifact_path_of(self@),
    {
        let mut s = self.artifact_dir();
        s.append("/");
        s.append(self.version.as_str());
        proof {
            reveal_strlit("/");
        }
        s
    }
}

/// Whether `==` starts at position `i` of `s`.
pub open spec fn sep_at(s: Seq<char>, i: int) -> bool {
    0 <= i && i + 1 < s.len() && s[i] == '=' && s[i + 1] == '='
}

/// Position of the first `==` at or after `i`, or the length of `s` if there is none.
pub open spec fn first_sep_from(s: Seq<char>, i: int) -> int
    decreases s.len() - i,
{
    if i < 0 || i + 1 >= s.len() {
        s.len() as int
    } else if sep_at(s, i) {
        i
    } else {
        first_sep_from(s, i + 1)
    }
}

pub open spec fn first_sep(s: Seq<char>) -> int {
    first_sep_from(s, 0)
}

/// The package named by a list entry: what stands before its first `==`.
pub open spec fn entry_name(s: Seq<char>) -> Seq<char> {
    s.take(first_sep(s))
}

/// The version named by a list entry: what follows its first `==` up to the
/// next `==`; none where the entry holds no `==`.
pub open spec fn entry_version(s: Seq<char>) -> Option<Seq<char>> {
    if first_sep(s) == s.len() {
        None
    } else {
        let rest = s.skip(first_sep(s) + 2);
        Some(rest.take(first_sep(rest)))
    }
}

proof fn lemma_first_sep_bounds(s: Seq<char>, i: int)
    requires
        0 <= i,
    ensures
        first_sep_from(s, i) <= s.len(),
        first_sep_from(s, i) == s.len() || (sep_at(s, first_sep_from(s, i))
            && first_sep_from(s, i) + 2 <= s.len()),
    decreases s.len() - i,
{
    if i + 1 < s.len() && !sep_at(s, i) {
        lemma_first_sep_bounds(s, i + 1);
    }
}

fn find_sep(s: &str, n: usize, from: usize) -> (r: usize)
    requires
        n == s@.len(),
        from <= n,
    ensures
        r == first_sep_from(s@, from as int),
{
    let mut i = from;
    while i < n && i + 1 < n
        invariant
            n == s@.len(),
            from <= i <= n,
            first_sep_from(s@, from as int) == first_sep_from(s@, i as int),
        decreases n - i,
    {
        if s.get_char(i) == '=' && s.get_char(i + 1) == '=' {
            return i;
        }
        i = i + 1;
    }
    n
}

/// Splits a list entry, `name` or `name==version`, into its two parts.
pub fn parse_entry(entry: &str) -> (r: (String, Option<String>))
    ensures
        r.0@ == entry_name(entry@),
        match r.1 {
            Some(v) => entry_version(entry@) == Some(v@),
            None => entry_version(entry@) is None,
        },
{
    let n = entry.unicode_len();
    let k = find_sep(entry, n, 0);
    proof {
        lemma_first_sep_bounds(entry@, 0);
    }
    let name = String::from_str(entry.substring_char(0, k));
    if k == n {
        return (name, None);
    }
    let rest = entry.substring_char(k + 2, n);
    let rn = rest.unicode_len();
    let e = find_sep(rest, rn, 0);
    proof {
        lemma_first_sep_bounds(rest@, 0);
        assert(rest@ == entry@.skip(k + 2));
    }
    let version = String::from_str(rest.substring_char(0, e));
    (name, Some(version))
}

} // verus!
