//! The shared queue of pending jobs: built once from the catalog, then drained.
use vstd::prelude::*;
use vstd::hash_set::StringHashSet;
use crate::job::{Job, job_text, job_views};

verus! {

/// Whether some job of `s` has the text `t`.
pub open spec fn has_text(s: Seq<(Seq<char>, Seq<char>)>, t: Seq<char>) -> bool {
    exists|k: int| 0 <= k < s.len() && job_text(#[trigger] s[k]) == t
}

/// No two jobs of `s` share their text, so no job occurs twice.
pub open spec fn distinct_texts(s: Seq<(Seq<char>, Seq<char>)>) -> bool {
    forall|i: int, j: int|
        0 <= i < s.len() && 0 <= j < s.len() && i != j ==> job_text(#[trigger] s[i]) != job_text(
            #[trigger] s[j],
        )
}

/// The catalog's jobs that are to run, in catalog order: those without an
/// artifact (or all of them where `always`), each job kept at its first place.
pub open spec fn selected(
    cat: Seq<(Seq<char>, Seq<char>)>,
    done: Seq<bool>,
    always: bool,
) -> Seq<(Seq<char>, Seq<char>)>
    decreases cat.len(),
{
    if cat.len() == 0 {
        Seq::empty()
    } else {
        let n = cat.len() - 1;
        let prev = selected(cat.take(n), done.take(n), always);
        if (always || !done[n]) && !has_text(prev, job_text(cat[n])) {
            prev.push(cat[n])
        } else {
            prev
        }
    }
}

/// The jobs still to hand out, the next one first.
pub struct Queue {
    /// Pending jobs, the next one last.
    pending: Vec<Job>,
}

impl View for Queue {
    type V = Seq<(Seq<char>, Seq<char>)>;

    closed spec fn view(&self) -> Seq<(Seq<char>, Seq<char>)> {
        job_views(self.pending@).reverse()
    }
}

pub proof fn lemma_selected_distinct(
    cat: Seq<(Seq<char>, Seq<char>)>,
    done: Seq<bool>,
    always: bool,
)
    ensures
        distinct_texts(selected(cat, done, always)),
    decreases cat.len(),
{
    if cat.len() > 0 {
        let n = cat.len() - 1;
        lemma_selected_distinct(cat.take(n), done.take(n), always);
        let prev = selected(cat.take(n), done.take(n), always);
        if (always || !done[n]) && !has_text(prev, job_text(cat[n])) {
            let s = prev.push(cat[n]);
            assert forall|i: int, j: int|
                0 <= i < s.len() && 0 <= j < s.len() && i != j implies job_text(
                    #[trigger] s[i],
                ) != job_text(#[trigger] s[j]) by {
                if i == n as int && j < prev.len() {
                    assert(s[j] == prev[j]);
                } else if j == n as int && i < prev.len() {
                    assert(s[i] == prev[i]);
                }
            }
        }
    }
}

impl Queue {
    pub open spec fn wf(&self) -> bool {
        distinct_texts(self@)
    }

    /// Builds the queue from the catalog. `done[i]` tells whether the artifact of
    /// `catalog[i]` exists; under `RerunWhen::Never` such jobs are left out.
    /// Jobs are told apart by their `name==version` text, and a repeated one is
    /// kept once. The jobs are handed out in the reverse of catalog order.
    pub fn build(catalog: &Vec<Job>, done: &Vec<bool>, rerun: crate::RerunWhen) -> (r: Queue)
        requires
            done.len() == catalog.len(),
        ensures
            r.wf(),
            r@ == selected(
                job_views(catalog@),
                done@,
                rerun == crate::RerunWhen::Always,
            ).reverse(),
    {
        let always = rerun.reruns_completed();
        let ghost cat = job_views(catalog@);
        let mut seen = StringHashSet::new();
        let mut pending: Vec<Job> = Vec::new();
        let mut i: usize = 0;
        while i < catalog.len()
            invariant
                i <= catalog.len(),
                done.len() == catalog.len(),
                cat == job_views(catalog@),
                job_views(pending@) == selected(cat.take(i as int), done@.take(i as int), always),
                forall|t: Seq<char>| seen@.contains(t) <==> has_text(job_views(pending@), t),
            decreases catalog.len() - i,
        {
            let ghost before = job_views(pending@);
            assert(cat.take(i + 1).take(i as int) == cat.take(i as int));
            assert(done@.take(i + 1).take(i as int) == done@.take(i as int));
            let job = &catalog[i];
            let key = job.text();
            if (always || !done[i]) && !seen.contains(key.as_str()) {
                seen.insert(key);
                pending.push(job.duplicate());
                proof {
                    let after = job_views(pending@);
                    assert(after == before.push(cat[i as int]));
                    assert forall|t: Seq<char>| seen@.contains(t) <==> has_text(after, t) by {
                        if has_text(after, t) {
                            let k = choose|k: int| 0 <= k < after.len() && job_text(#[trigger] after[k]) == t;
                            if k < before.len() {
                                assert(after[k] == before[k]);
                            }
                        }
                        if has_text(before, t) {
                            let k = choose|k: int| 0 <= k < before.len() && job_text(#[trigger] before[k]) == t;
                            assert(after[k] == before[k]);
                        }
                        if t == job_text(cat[i as int]) {
                            assert(after[before.len() as int] == cat[i as int]);
                        }
                    }
                }
            }
            i = i + 1;
        }
        assert(cat.take(catalog.len() as int) == cat);
        assert(done@.take(catalog.len() as int) == done@);
        proof {
            lemma_selected_distinct(cat, done@, always);
        }
        let q = Queue { pending };
        proof {
            let s = selected(cat, done@, always);
            assert forall|a: int, b: int|
                0 <= a < q@.len() && 0 <= b < q@.len() && a != b implies job_text(
                    #[trigger] q@[a],
                ) != job_text(#[trigger] q@[b]) by {
                assert(q@[a] == s[s.len() - 1 - a]);
                assert(q@[b] == s[s.len() - 1 - b]);
            }
        }
        q
    }

    /// Number of jobs still pending.
    pub fn len(&self) -> (r: usize)
        ensures
            r == self@.len(),
    {
        self.pending.len()
    }

    pub fn is_empty(&self) -> (r: bool)
        ensures
            r == (self@.len() == 0),
    {
        self.pending.len() == 0
    }

    /// Removes and returns the next job, or `None` once the queue is empty.
    pub fn pop(&mut self) -> (r: Option<Job>)
        requires
            old(self).wf(),
        ensures
            final(self).wf(),
            old(self)@.len() == 0 ==> r is None && final(self)@ == old(self)@,
            old(self)@.len() > 0 ==> r is Some && r->0@ == old(self)@[0] && final(self)@
                == old(self)@.drop_first(),
    {
        let ghost before = self@;
        let r = self.pending.pop();
        proof {
            if before.len() > 0 {
                assert(self@ =~= before.drop_first());
                assert forall|a: int, b: int|
                    0 <= a < self@.len() && 0 <= b < self@.len() && a != b implies job_text(
                        #[trigger] self@[a],
                    ) != job_text(#[trigger] self@[b]) by {
                    assert(self@[a] == before[a + 1]);
                    assert(self@[b] == before[b + 1]);
                }
            }
        }
        r
    }
}

/// However many duplicates the catalog holds, the queue built from it holds
/// each job at most once.
pub proof fn lemma_build_holds_each_job_once(
    cat: Seq<(Seq<char>, Seq<char>)>,
    done: Seq<bool>,
    always: bool,
)
    ensures
        ({
            let q = selected(cat, done, always).reverse();
            forall|i: int, j: int| 0 <= i < j < q.len() ==> q[i] != q[j]
        }),
{
    lemma_selected_distinct(cat, done, always);
    let s = selected(cat, done, always);
    let q = s.reverse();
    assert forall|i: int, j: int| 0 <= i < j < q.len() implies q[i] != q[j] by {
        assert(q[i] == s[s.len() - 1 - i]);
        assert(q[j] == s[s.len() - 1 - j]);
    }
}

/// Pops on one queue, from however many workers, form one sequence: after `k`
/// of them the jobs handed out are the first `k` of the queue, no two of them
/// alike, none of them still pending, and together with what is pending they
/// are the queue's initial contents.
pub proof fn lemma_pops_hand_out_each_job_once(q: Seq<(Seq<char>, Seq<char>)>, k: int)
    requires
        distinct_texts(q),
        0 <= k <= q.len(),
    ensures
        q.take(k) + q.skip(k) == q,
        forall|a: int, b: int| 0 <= a < b < k ==> q.take(k)[a] != q.take(k)[b],
        forall|a: int, b: int|
            0 <= a < k && 0 <= b < q.len() - k ==> q.take(k)[a] != q.skip(k)[b],
{
    assert(q.take(k) + q.skip(k) =~= q);
    assert forall|a: int, b: int| 0 <= a < b < k implies q.take(k)[a] != q.take(k)[b] by {
        assert(job_text(q[a]) != job_text(q[b]));
    }
    assert forall|a: int, b: int| 0 <= a < k && 0 <= b < q.len() - k implies q.take(k)[a]
        != q.skip(k)[b] by {
        assert(job_text(q[a]) != job_text(q[b + k]));
    }
}

/// With reruns off, a catalog whose jobs all have their artifacts yields an
/// empty queue: a second run over an unchanged catalog dispatches nothing.
pub proof fn lemma_second_run_dispatches_nothing(
    cat: Seq<(Seq<char>, Seq<char>)>,
    done: Seq<bool>,
)
    requires
        done.len() == cat.len(),
        forall|i: int| 0 <= i < done.len() ==> done[i],
    ensures
        selected(cat, done, false).reverse().len() == 0,
    decreases cat.len(),
{
    if cat.len() > 0 {
        let n = cat.len() - 1;
        lemma_second_run_dispatches_nothing(cat.take(n), done.take(n));
    }
}

impl Queue {
    /// Pops every pending job, in the order they are handed out.
    pub fn drain(&mut self) -> (r: Vec<Job>)
        requires
            old(self).wf(),
        ensures
            final(self)@.len() == 0,
            job_views(r@) == old(self)@,
    {
        let ghost init = self@;
        let mut out: Vec<Job> = Vec::new();
        loop
            invariant
                self.wf(),
                init == old(self)@,
                out@.len() <= init.len(),
                init == job_views(out@) + self@,
            decreases self@.len(),
        {
            let ghost before = self@;
            match self.pop() {
                None => {
                    assert(self@.len() == 0);
                    assert(init =~= job_views(out@) + self@);
                    assert(init =~= job_views(out@));
                    return out;
                },
                Some(j) => {
                    let ghost prev = job_views(out@);
                    out.push(j);
                    assert(job_views(out@) =~= prev.push(before[0]));
                    assert(init =~= job_views(out@) + self@);
                },
            }
        }
    }
}

} // verus!
