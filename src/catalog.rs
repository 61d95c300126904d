//! The catalog of packages and the choice of jobs from it: the most
//! downloaded ones, or those that a list names.
use vstd::prelude::*;
use crate::job::{Job, parse_entry, entry_name, entry_version};
use crate::text::texts;

verus! {

/// A package of the catalog at its current version, with its recent downloads.
pub struct CatalogEntry {
    pub job: Job,
    pub recent_downloads: u64,
}

impl View for CatalogEntry {
    type V = ((Seq<char>, Seq<char>), u64);

    open spec fn view(&self) -> ((Seq<char>, Seq<char>), u64) {
        (self.job@, self.recent_downloads)
    }
}

pub open spec fn entry_views(s: Seq<CatalogEntry>) -> Seq<((Seq<char>, Seq<char>), u64)> {
    s.map_values(|e: CatalogEntry| e@)
}

/// Index of the last catalog entry named `name`, or -1. A later entry of the
/// same name takes the place of an earlier one.
pub open spec fn last_named(cat: Seq<((Seq<char>, Seq<char>), u64)>, name: Seq<char>) -> int
    decreases cat.len(),
{
    if cat.len() == 0 {
        -1
    } else if cat.last().0.0 == name {
        cat.len() - 1
    } else {
        last_named(cat.drop_last(), name)
    }
}

/// The catalog entry that a list entry `name` or `name==version` stands for:
/// the package's entry, at the version named if one is; none for a package
/// that the catalog lacks.
pub open spec fn resolve_one(cat: Seq<((Seq<char>, Seq<char>), u64)>, entry: Seq<char>) -> Option<
    ((Seq<char>, Seq<char>), u64),
> {
    let k = last_named(cat, entry_name(entry));
    if k < 0 {
        None
    } else {
        let version = match entry_version(entry) {
            Some(v) => v,
            None => cat[k].0.1,
        };
        Some(((cat[k].0.0, version), cat[k].1))
    }
}

/// The list's entries resolved against the catalog, in list order, those the
/// catalog lacks dropped.
pub open spec fn resolved(cat: Seq<((Seq<char>, Seq<char>), u64)>, entries: Seq<Seq<char>>) -> Seq<
    ((Seq<char>, Seq<char>), u64),
>
    decreases entries.len(),
{
    if entries.len() == 0 {
        Seq::empty()
    } else {
        let prev = resolved(cat, entries.drop_last());
        match resolve_one(cat, entries.last()) {
            Some(e) => prev.push(e),
            None => prev,
        }
    }
}

/// Where `x` goes in `s`, sorted most downloaded first: after every entry
/// with at least as many downloads.
pub open spec fn insert_pos(s: Seq<((Seq<char>, Seq<char>), u64)>, d: u64) -> int
    decreases s.len(),
{
    if s.len() > 0 && s.last().1 < d {
        insert_pos(s.drop_last(), d)
    } else {
        s.len() as int
    }
}

/// `s` sorted most downloaded first; entries with equal downloads keep
/// their order.
pub open spec fn by_downloads(s: Seq<((Seq<char>, Seq<char>), u64)>) -> Seq<
    ((Seq<char>, Seq<char>), u64),
>
    decreases s.len(),
{
    if s.len() == 0 {
        s
    } else {
        let prev = by_downloads(s.drop_last());
        prev.insert(insert_pos(prev, s.last().1), s.last())
    }
}

proof fn lemma_insert_pos_bounds(s: Seq<((Seq<char>, Seq<char>), u64)>, d: u64)
    ensures
        0 <= insert_pos(s, d) <= s.len(),
    decreases s.len(),
{
    if s.len() > 0 && s.last().1 < d {
        lemma_insert_pos_bounds(s.drop_last(), d);
    }
}

proof fn lemma_last_named_bounds(cat: Seq<((Seq<char>, Seq<char>), u64)>, name: Seq<char>)
    ensures
        -1 <= last_named(cat, name) < cat.len(),
    decreases cat.len(),
{
    if cat.len() > 0 && cat.last().0.0 != name {
        lemma_last_named_bounds(cat.drop_last(), name);
    }
}

impl CatalogEntry {
    pub fn duplicate(&self) -> (r: CatalogEntry)
        ensures
            r@ == self@,
    {
        CatalogEntry { job: self.job.duplicate(), recent_downloads: self.recent_downloads }
    }
}

fn find_last_named(cat: &Vec<CatalogEntry>, name: &String) -> (r: Option<usize>)
    ensures
        match r {
            Some(k) => last_named(entry_views(cat@), name@) == k,
            None => last_named(entry_views(cat@), name@) == -1,
        },
{
    let mut i = cat.len();
    assert(entry_views(cat@).take(i as int) =~= entry_views(cat@));
    while i > 0
        invariant
            i <= cat.len(),
            last_named(entry_views(cat@), name@) == last_named(
                entry_views(cat@).take(i as int),
                name@,
            ),
        decreases i,
    {
        let ghost pre = entry_views(cat@).take(i as int);
        assert(pre.drop_last() =~= entry_views(cat@).take(i - 1));
        if cat[i - 1].job.name == *name {
            return Some(i - 1);
        }
        i = i - 1;
    }
    assert(entry_views(cat@).take(0) =~= Seq::<((Seq<char>, Seq<char>), u64)>::empty());
    None
}

/// Resolves the entries of a list, `name` or `name==version` each, against
/// the catalog, and orders the result most downloaded first.
pub fn resolve_list(entries: &Vec<String>, catalog: &Vec<CatalogEntry>) -> (r: Vec<CatalogEntry>)
    ensures
        entry_views(r@) == by_downloads(resolved(entry_views(catalog@), texts(entries@))),
{
    let ghost cat = entry_views(catalog@);
    let mut out: Vec<CatalogEntry> = Vec::new();
    let mut i: usize = 0;
    while i < entries.len()
        invariant
            i <= entries.len(),
            cat == entry_views(catalog@),
            entry_views(out@) == resolved(cat, texts(entries@).take(i as int)),
        decreases entries.len() - i,
    {
        assert(texts(entries@).take(i + 1).drop_last() =~= texts(entries@).take(
            i as int,
        ));
        let (name, version) = parse_entry(entries[i].as_str());
        match find_last_named(catalog, &name) {
            Some(k) => {
                proof {
                    lemma_last_named_bounds(cat, name@);
                    assert(texts(entries@).take(i + 1).last() == entries@[i as int]@);
                }
                let found = &catalog[k];
                let v = match version {
                    Some(v) => v,
                    None => found.job.version.clone(),
                };
                let ghost prev = entry_views(out@);
                out.push(
                    CatalogEntry {
                        job: Job::new(found.job.name.clone(), v),
                        recent_downloads: found.recent_downloads,
                    },
                );
                assert(entry_views(out@) =~= prev.push(
                    resolve_one(cat, texts(entries@).take(i + 1).last())->0,
                ));
            },
            None => {},
        }
        i = i + 1;
    }
    assert(texts(entries@).take(entries.len() as int) =~= texts(entries@));
    sort_by_downloads(out)
}

/// Sorts most downloaded first, keeping the order of entries with equal downloads.
pub fn sort_by_downloads(v: Vec<CatalogEntry>) -> (r: Vec<CatalogEntry>)
    ensures
        entry_views(r@) == by_downloads(entry_views(v@)),
{
    let mut out: Vec<CatalogEntry> = Vec::new();
    let mut i: usize = 0;
    while i < v.len()
        invariant
            i <= v.len(),
            out.len() == i,
            entry_views(out@) == by_downloads(entry_views(v@).take(i as int)),
        decreases v.len() - i,
    {
        let ghost pre = entry_views(v@).take(i + 1);
        assert(pre.drop_last() =~= entry_views(v@).take(i as int));
        let d = v[i].recent_downloads;
        let mut p = out.len();
        assert(entry_views(out@).take(p as int) =~= entry_views(out@));
        while p > 0 && out[p - 1].recent_downloads < d
            invariant
                p <= out.len(),
                insert_pos(entry_views(out@), d) == insert_pos(entry_views(out@).take(p as int), d),
            decreases p,
        {
            assert(entry_views(out@).take(p as int).drop_last() =~= entry_views(out@).take(p - 1));
            p = p - 1;
        }
        proof {
            lemma_insert_pos_bounds(entry_views(out@).take(p as int), d);
        }
        let ghost prev = entry_views(out@);
        out.insert(p, v[i].duplicate());
        assert(entry_views(out@) =~= prev.insert(p as int, pre.last()));
        i = i + 1;
    }
    assert(entry_views(v@).take(v.len() as int) =~= entry_views(v@));
    out
}

/// The first `n` entries of the catalog, or all of them if it holds fewer.
pub fn top(catalog: Vec<CatalogEntry>, n: usize) -> (r: Vec<CatalogEntry>)
    ensures
        n < catalog.len() ==> entry_views(r@) == entry_views(catalog@).take(n as int),
        n >= catalog.len() ==> entry_views(r@) == entry_views(catalog@),
{
    let mut c = catalog;
    let ghost before = c@;
    c.truncate(n);
    assert(n < before.len() ==> entry_views(c@) =~= entry_views(before).take(n as int));
    assert(n >= before.len() ==> entry_views(c@) =~= entry_views(before));
    c
}

/// The jobs of a list of catalog entries, in the same order.
pub fn jobs_of(entries: &Vec<CatalogEntry>) -> (r: Vec<Job>)
    ensures
        r@.len() == entries@.len(),
        forall|i: int| 0 <= i < r@.len() ==> r@[i]@ == entries@[i].job@,
{
    let mut out: Vec<Job> = Vec::new();
    let mut i: usize = 0;
    while i < entries.len()
        invariant
            i <= entries.len(),
            out@.len() == i,
            forall|j: int| 0 <= j < i ==> out@[j]@ == entries@[j].job@,
        decreases entries.len() - i,
    {
        out.push(entries[i].job.duplicate());
        i = i + 1;
    }
    out
}

} // verus!
