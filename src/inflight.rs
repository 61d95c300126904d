//! The jobs running now, with the time each started. It serves the progress
//! display only: nothing that decides which job runs reads it.
use vstd::prelude::*;
use crate::job::Job;

verus! {

/// Running jobs and their start times, in the order they were claimed.
pub struct InFlight {
    entries: Vec<(Job, u64)>,
}

/// The first index of `s` whose job is `j`, or the length of `s`.
pub open spec fn index_of(s: Seq<((Seq<char>, Seq<char>), u64)>, j: (Seq<char>, Seq<char>)) -> int
    decreases s.len(),
{
    if s.len() == 0 {
        0
    } else if s[0].0 == j {
        0
    } else {
        1 + index_of(s.drop_first(), j)
    }
}

proof fn lemma_index_of(s: Seq<((Seq<char>, Seq<char>), u64)>, j: (Seq<char>, Seq<char>))
    ensures
        0 <= index_of(s, j) <= s.len(),
        index_of(s, j) < s.len() ==> s[index_of(s, j)].0 == j,
        forall|k: int| 0 <= k < index_of(s, j) ==> s[k].0 != j,
    decreases s.len(),
{
    if s.len() > 0 && s[0].0 != j {
        lemma_index_of(s.drop_first(), j);
        assert forall|k: int| 0 <= k < index_of(s, j) implies s[k].0 != j by {
            if k > 0 {
                assert(s[k] == s.drop_first()[k - 1]);
            }
        }
    }
}

impl View for InFlight {
    type V = Seq<((Seq<char>, Seq<char>), u64)>;

    closed spec fn view(&self) -> Seq<((Seq<char>, Seq<char>), u64)> {
        self.entries@.map_values(|e: (Job, u64)| (e.0@, e.1))
    }
}

impl InFlight {
    pub fn new() -> (r: InFlight)
        ensures
            r@ == Seq::<((Seq<char>, Seq<char>), u64)>::empty(),
    {
        let r = InFlight { entries: Vec::new() };
        assert(r@ =~= Seq::<((Seq<char>, Seq<char>), u64)>::empty());
        r
    }

    pub fn len(&self) -> (r: usize)
        ensures
            r == self@.len(),
    {
        self.entries.len()
    }

    /// Records that `job` started at `started`.
    pub fn claim(&mut self, job: Job, started: u64)
        ensures
            final(self)@ == old(self)@.push((job@, started)),
    {
        let ghost j = job@;
        self.entries.push((job, started));
        assert(self@ =~= old(self)@.push((j, started)));
    }

    /// Forgets the first record of `job`, whether it finished or was
    /// abandoned; says whether there was one.
    pub fn release(&mut self, job: &Job) -> (r: bool)
        ensures
            r == (index_of(old(self)@, job@) < old(self)@.len()),
            r ==> final(self)@ == old(self)@.remove(index_of(old(self)@, job@)),
            !r ==> final(self)@ == old(self)@,
    {
        proof {
            lemma_index_of(self@, job@);
        }
        let mut i: usize = 0;
        while i < self.entries.len()
            invariant
                i <= self.entries.len(),
                self@ == old(self)@,
                self@.len() == self.entries.len(),
                forall|k: int| 0 <= k < i ==> self@[k].0 != job@,
                index_of(self@, job@) >= i,
                0 <= index_of(old(self)@, job@) <= old(self)@.len(),
                index_of(old(self)@, job@) < old(self)@.len() ==> old(self)@[index_of(
                    old(self)@,
                    job@,
                )].0 == job@,
                forall|k: int| 0 <= k < index_of(old(self)@, job@) ==> old(self)@[k].0 != job@,
            decreases self.entries.len() - i,
        {
            assert(self@[i as int].0 == self.entries@[i as int].0@);
            if self.entries[i].0.same_as(job) {
                let ghost before = self@;
                self.entries.remove(i);
                assert(self@ =~= before.remove(i as int));
                return true;
            }
            i = i + 1;
        }
        false
    }

    /// The records, oldest claim first.
    pub fn entries(&self) -> (r: Vec<(Job, u64)>)
        ensures
            r@.len() == self@.len(),
            forall|k: int| 0 <= k < r@.len() ==> (r@[k].0@, r@[k].1) == self@[k],
    {
        let mut out: Vec<(Job, u64)> = Vec::new();
        let mut i: usize = 0;
        while i < self.entries.len()
            invariant
                i <= self.entries.len(),
                self@.len() == self.entries.len(),
                out@.len() == i,
                forall|k: int| 0 <= k < i ==> (out@[k].0@, out@[k].1) == self@[k],
            decreases self.entries.len() - i,
        {
            out.push((self.entries[i].0.duplicate(), self.entries[i].1));
            i = i + 1;
        }
        out
    }
}

} // verus!
