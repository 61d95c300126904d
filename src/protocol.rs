//! The line protocol spoken with a sandboxed child: one request line per job,
//! answered by free-form output that ends in a line carrying `-<token>-`.
use vstd::prelude::*;
use vstd::string::*;

verus! {

broadcast use vstd::string::group_string_axioms;

/// Unicode `White_Space`, the characters that `str::trim_end` removes.
pub open spec fn is_white(c: char) -> bool {
    let u = c as u32;
    (0x9 <= u && u <= 0xd) || u == 0x20 || u == 0x85 || u == 0xa0 || u == 0x1680
        || (0x2000 <= u && u <= 0x200a) || u == 0x2028 || u == 0x2029 || u == 0x202f
        || u == 0x205f || u == 0x3000
}

/// `s` without its trailing white space.
pub open spec fn trimmed(s: Seq<char>) -> Seq<char>
    decreases s.len(),
{
    if s.len() > 0 && is_white(s.last()) {
        trimmed(s.drop_last())
    } else {
        s
    }
}

/// The text that closes the output of one job: the run's token between dashes.
pub open spec fn marker_of(token: Seq<char>) -> Seq<char> {
    seq!['-'] + token + seq!['-']
}

pub open spec fn ends_with(s: Seq<char>, suffix: Seq<char>) -> bool {
    suffix.len() <= s.len() && s.subrange(s.len() - suffix.len(), s.len() as int) == suffix
}

/// What the output read so far decodes to: once its trimmed end is the marker,
/// everything before the marker; before that, nothing yet.
pub open spec fn decoded(buf: Seq<char>, marker: Seq<char>) -> Option<Seq<char>> {
    let t = trimmed(buf);
    if ends_with(t, marker) {
        Some(t.subrange(0, t.len() - marker.len()))
    } else {
        None
    }
}

pub fn is_white_char(c: char) -> (r: bool)
    ensures
        r == is_white(c),
{
    let u = c as u32;
    (0x9 <= u && u <= 0xd) || u == 0x20 || u == 0x85 || u == 0xa0 || u == 0x1680
        || (0x2000 <= u && u <= 0x200a) || u == 0x2028 || u == 0x2029 || u == 0x202f
        || u == 0x205f || u == 0x3000
}

/// The characters of `s`, in order.
pub fn chars_of(s: &str) -> (r: Vec<char>)
    ensures
        r@ == s@,
{
    let mut out: Vec<char> = Vec::new();
    for c in it: s.chars()
        invariant
            out@ == it.seq().take(it.index() as int),
    {
        out.push(c);
    }
    out
}

/// The end-of-output marker for a run whose token is `token`.
pub fn end_marker(token: &str) -> (r: String)
    ensures
        r@ == marker_of(token@),
{
    let mut m = String::from_str("-");
    m.append(token);
    m.append("-");
    proof {
        reveal_strlit("-");
    }
    m
}

/// Length of `buf` once its trailing white space is dropped.
pub fn trimmed_len(buf: &Vec<char>) -> (r: usize)
    ensures
        r <= buf.len(),
        r == trimmed(buf@).len(),
        trimmed(buf@) == buf@.take(r as int),
{
    let mut n = buf.len();
    assert(buf@.take(n as int) =~= buf@);
    while n > 0 && is_white_char(buf[n - 1])
        invariant
            n <= buf.len(),
            trimmed(buf@) == trimmed(buf@.take(n as int)),
        decreases n,
    {
        assert(buf@.take(n as int).drop_last() == buf@.take(n - 1));
        n = n - 1;
    }
    n
}

/// Decodes the output read so far: `Some` with the job's output once the
/// marker ends it, `None` while more lines are owed.
pub fn decode(buf: &Vec<char>, marker: &Vec<char>) -> (r: Option<Vec<char>>)
    ensures
        match r {
            Some(out) => decoded(buf@, marker@) == Some(out@),
            None => decoded(buf@, marker@) is None,
        },
{
    let t = trimmed_len(buf);
    let m = marker.len();
    if m > t {
        return None;
    }
    let start = t - m;
    let mut k: usize = 0;
    while k < m
        invariant
            start + m == t,
            t <= buf.len(),
            trimmed(buf@) == buf@.take(t as int),
            m == marker.len(),
            k <= m,
            forall|j: int| 0 <= j < k ==> buf@[start + j] == marker@[j],
        decreases m - k,
    {
        if buf[start + k] != marker[k] {
            proof {
                let ts = trimmed(buf@);
                assert(ts.subrange(start as int, t as int)[k as int] != marker@[k as int]);
            }
            return None;
        }
        k = k + 1;
    }
    let mut out: Vec<char> = Vec::new();
    let mut i: usize = 0;
    while i < start
        invariant
            start <= buf.len(),
            i <= start,
            out@ == buf@.take(i as int),
        decreases start - i,
    {
        out.push(buf[i]);
        i = i + 1;
    }
    proof {
        let ts = trimmed(buf@);
        assert(ts.subrange(start as int, t as int) =~= marker@);
        assert(out@ =~= ts.subrange(0, start as int));
    }
    Some(out)
}

} // verus!
