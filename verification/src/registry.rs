//! A registry of running jobs, keyed by job id: child processes to kill or
//! cancellation flags to raise when a job is cancelled.
use vstd::prelude::*;

verus! {

/// Items keyed by job id; registering an id again replaces its item.
pub struct JobRegistry<T> {
    entries: Vec<(String, T)>,
}

/// The entries' keys are pairwise distinct.
pub open spec fn keys_unique<T>(e: Seq<(String, T)>) -> bool {
    forall|i: int, j: int|
        0 <= i < e.len() && 0 <= j < e.len() && i != j ==> #[trigger] e[i].0@ != #[trigger] e[j].0@
}

/// Some entry has key `k`.
pub open spec fn has_key<T>(e: Seq<(String, T)>, k: Seq<char>) -> bool {
    exists|i: int| 0 <= i < e.len() && #[trigger] e[i].0@ == k
}

/// The position of the entry with key `k`.
pub open spec fn key_index<T>(e: Seq<(String, T)>, k: Seq<char>) -> int {
    choose|i: int| 0 <= i < e.len() && #[trigger] e[i].0@ == k
}

/// The entries as a map from key to item.
pub open spec fn entries_map<T>(e: Seq<(String, T)>) -> Map<Seq<char>, T> {
    Map::new(|k: Seq<char>| has_key(e, k), |k: Seq<char>| e[key_index(e, k)].1)
}

proof fn lemma_key_index<T>(e: Seq<(String, T)>, i: int)
    requires
        keys_unique(e),
        0 <= i < e.len(),
    ensures
        has_key(e, e[i].0@),
        key_index(e, e[i].0@) == i,
        entries_map(e).contains_key(e[i].0@),
        entries_map(e)[e[i].0@] == e[i].1,
{
    assert(has_key(e, e[i].0@));
    let j = key_index(e, e[i].0@);
    assert(e[j].0@ == e[i].0@);
}

proof fn lemma_map_push<T>(e: Seq<(String, T)>, k: String, v: T)
    requires
        keys_unique(e),
        !has_key(e, k@),
    ensures
        keys_unique(e.push((k, v))),
        entries_map(e.push((k, v))) == entries_map(e).insert(k@, v),
{
    let f = e.push((k, v));
    assert forall|i: int, j: int|
        0 <= i < f.len() && 0 <= j < f.len() && i != j implies #[trigger] f[i].0@
        != #[trigger] f[j].0@ by {
        if i < e.len() && j < e.len() {
            assert(f[i] == e[i] && f[j] == e[j]);
        } else if i < e.len() {
            assert(f[i] == e[i]);
        } else {
            assert(f[j] == e[j]);
        }
    }
    assert forall|key: Seq<char>| #[trigger]
        entries_map(f).contains_key(key) == entries_map(e).insert(k@, v).contains_key(key) by {
        if has_key(e, key) {
            let i = key_index(e, key);
            assert(f[i] == e[i]);
        }
        if has_key(f, key) && key != k@ {
            let i = key_index(f, key);
            if i < e.len() {
                assert(f[i] == e[i]);
            }
        }
        if key == k@ {
            assert(f[e.len() as int].0@ == key);
        }
    }
    assert forall|key: Seq<char>| #[trigger] entries_map(f).contains_key(key) implies entries_map(
        f,
    )[key] == entries_map(e).insert(k@, v)[key] by {
        let i = key_index(f, key);
        if key == k@ {
            lemma_key_index(f, e.len() as int);
        } else {
            lemma_key_index(f, i);
            assert(f[i] == e[i]);
            lemma_key_index(e, i);
        }
    }
    assert(entries_map(f) =~= entries_map(e).insert(k@, v));
}

proof fn lemma_map_remove<T>(e: Seq<(String, T)>, i: int)
    requires
        keys_unique(e),
        0 <= i < e.len(),
    ensures
        keys_unique(e.remove(i)),
        entries_map(e.remove(i)) == entries_map(e).remove(e[i].0@),
{
    let f = e.remove(i);
    let k = e[i].0@;
    assert forall|a: int, b: int|
        0 <= a < f.len() && 0 <= b < f.len() && a != b implies #[trigger] f[a].0@
        != #[trigger] f[b].0@ by {
        let a2 = if a < i {
            a
        } else {
            a + 1
        };
        let b2 = if b < i {
            b
        } else {
            b + 1
        };
        assert(f[a] == e[a2] && f[b] == e[b2]);
    }
    assert forall|key: Seq<char>| #[trigger]
        entries_map(f).contains_key(key) == entries_map(e).remove(k).contains_key(key) by {
        if has_key(f, key) {
            let a = key_index(f, key);
            let a2 = if a < i {
                a
            } else {
                a + 1
            };
            assert(f[a] == e[a2]);
            assert(e[a2].0@ == key);
        }
        if has_key(e, key) && key != k {
            let a2 = key_index(e, key);
            let a = if a2 < i {
                a2
            } else {
                a2 - 1
            };
            assert(f[a] == e[a2]);
        }
    }
    assert forall|key: Seq<char>| #[trigger] entries_map(f).contains_key(key) implies entries_map(
        f,
    )[key] == entries_map(e).remove(k)[key] by {
        let a = key_index(f, key);
        lemma_key_index(f, a);
        let a2 = if a < i {
            a
        } else {
            a + 1
        };
        assert(f[a] == e[a2]);
        lemma_key_index(e, a2);
    }
    assert(entries_map(f) =~= entries_map(e).remove(k));
}

impl<T> JobRegistry<T> {
    /// The registry as a map from job id to item.
    pub closed spec fn view(&self) -> Map<Seq<char>, T> {
        entries_map(self.entries@)
    }

    /// No job id appears twice.
    pub closed spec fn wf(&self) -> bool {
        keys_unique(self.entries@)
    }

    /// An empty registry.
    pub fn new() -> (r: Self)
        ensures
            r.wf(),
            r.view() == Map::<Seq<char>, T>::empty(),
    {
        let r = JobRegistry { entries: Vec::new() };
        assert(r.view() =~= Map::<Seq<char>, T>::empty());
        r
    }

    fn position(&self, job_id: &String) -> (r: Option<usize>)
        requires
            self.wf(),
        ensures
            r matches Some(i) ==> i < self.entries.len() && self.entries@[i as int].0@ == job_id@,
            r is None ==> !has_key(self.entries@, job_id@),
    {
        let mut i: usize = 0;
        while i < self.entries.len()
            invariant
                i <= self.entries.len(),
                forall|j: int| 0 <= j < i ==> #[trigger] self.entries@[j].0@ != job_id@,
            decreases self.entries.len() - i,
        {
            if self.entries[i].0 == *job_id {
                return Some(i);
            }
            i = i + 1;
        }
        None
    }

    /// Whether a job id is registered.
    pub fn contains(&self, job_id: &String) -> (r: bool)
        requires
            self.wf(),
        ensures
            r == self.view().contains_key(job_id@),
    {
        self.position(job_id).is_some()
    }

    /// Registers `item` under `job_id`, handing back the item it replaces.
    pub fn register(&mut self, job_id: String, item: T) -> (r: Option<T>)
        requires
            old(self).wf(),
        ensures
            final(self).wf(),
            final(self).view() == old(self).view().insert(job_id@, item),
            r matches Some(x) ==> old(self).view().contains_key(job_id@) && x == old(self).view()[job_id@],
            r is None ==> !old(self).view().contains_key(job_id@),
    {
        match self.position(&job_id) {
            Some(i) => {
                proof {
                    lemma_key_index(self.entries@, i as int);
                    lemma_map_remove(self.entries@, i as int);
                }
                let (_, displaced) = self.entries.remove(i);
                proof {
                    lemma_map_push(self.entries@, job_id, item);
                    assert(old(self).view().remove(job_id@).insert(job_id@, item) =~= old(
                        self,
                    ).view().insert(job_id@, item));
                }
                self.entries.push((job_id, item));
                Some(displaced)
            },
            None => {
                proof {
                    lemma_map_push(self.entries@, job_id, item);
                }
                self.entries.push((job_id, item));
                None
            },
        }
    }

    /// Removes and hands back the item registered under `job_id`.
    pub fn take(&mut self, job_id: &String) -> (r: Option<T>)
        requires
            old(self).wf(),
        ensures
            final(self).wf(),
            final(self).view() == old(self).view().remove(job_id@),
            r matches Some(x) ==> old(self).view().contains_key(job_id@) && x == old(self).view()[job_id@],
            r is None ==> !old(self).view().contains_key(job_id@),
    {
        match self.position(job_id) {
            Some(i) => {
                proof {
                    lemma_key_index(self.entries@, i as int);
                    lemma_map_remove(self.entries@, i as int);
                }
                let (_, item) = self.entries.remove(i);
                Some(item)
            },
            None => {
                assert(old(self).view().remove(job_id@) =~= old(self).view());
                None
            },
        }
    }
}

/// Taking a job right after registering it hands back what was
/// registered, and leaves the registry as it was without that job.
pub proof fn lemma_take_after_register<T>(m: Map<Seq<char>, T>, k: Seq<char>, v: T)
    ensures
        m.insert(k, v).contains_key(k),
        m.insert(k, v)[k] == v,
        m.insert(k, v).remove(k) == m.remove(k),
{
    assert(m.insert(k, v).remove(k) =~= m.remove(k));
}

/// Registering a job leaves every other job's item as it was.
pub proof fn lemma_register_keeps_others<T>(m: Map<Seq<char>, T>, k: Seq<char>, v: T, other: Seq<
    char,
>)
    requires
        other != k,
    ensures
        m.insert(k, v).contains_key(other) == m.contains_key(other),
        m.contains_key(other) ==> m.insert(k, v)[other] == m[other],
{
}

} // verus!
