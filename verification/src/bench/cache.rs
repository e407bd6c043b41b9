//! Results of benchmark runs, kept under the configuration they belong to.

use vstd::prelude::*;

use crate::text;

verus! {

/// The error measures of a run, as the bits of 64-bit floating-point numbers. A NaN stands for
/// a measure that no window gave.
#[derive(Clone, Copy, Debug, PartialEq, Eq, Structural)]
pub struct Metrics {
    pub mae: u64,
    pub rmse: u64,
    pub mase: u64,
}

/// What one model achieved.
#[derive(Clone, Copy, Debug, PartialEq, Eq, Structural)]
pub struct SoloResult {
    pub metrics: Metrics,
    /// Mean latency of a window in milliseconds, as the bits of a 64-bit floating-point number.
    pub lat_ms: u64,
    pub errors: usize,
}

/// What one combination of models achieved.
#[derive(Clone, Debug)]
pub struct EnsembleResult {
    pub name: String,
    pub metrics: Metrics,
}

/// The results of one configuration: those of the models, each under its name, and those of the
/// combinations, the best one first.
#[derive(Clone, Debug)]
pub struct CachedRun {
    pub series_len: usize,
    pub test_rows: usize,
    pub solo: Vec<(String, SoloResult)>,
    pub ensembles: Vec<EnsembleResult>,
}

/// The result under the first occurrence of `name` among the entries from `from` on.
pub open spec fn solo_among(solo: Seq<(String, SoloResult)>, name: Seq<char>, from: int) -> Option<SoloResult>
    decreases solo.len() - from,
{
    if from >= solo.len() {
        None
    } else if solo[from].0@ == name {
        Some(solo[from].1)
    } else {
        solo_among(solo, name, from + 1)
    }
}

impl CachedRun {
    /// What the model of the given name achieved.
    pub fn solo_of(&self, name: &str) -> (r: Option<SoloResult>)
        ensures
            r == solo_among(self.solo@, name@, 0),
    {
        let mut i: usize = 0;
        while i < self.solo.len()
            invariant
                i <= self.solo@.len(),
                solo_among(self.solo@, name@, 0) == solo_among(self.solo@, name@, i as int),
            decreases self.solo@.len() - i,
        {
            if text::same(self.solo[i].0.as_str(), name) {
                return Some(self.solo[i].1);
            }
            i += 1;
        }
        None
    }
}

/// The key of a configuration.
pub open spec fn key_text(dataset: Seq<char>, context: nat, horizon: nat, windows: nat) -> Seq<char> {
    dataset + ":ctx"@ + text::decimal(context) + ":h"@ + text::decimal(horizon) + ":w"@ + text::decimal(windows)
}

/// The key of a configuration.
pub fn key(dataset: &str, context: usize, horizon: usize, windows: usize) -> (r: String)
    ensures
        r@ == key_text(dataset@, context as nat, horizon as nat, windows as nat),
{
    let mut out = String::new();
    out.append(dataset);
    out.append(":ctx");
    text::push_decimal(&mut out, context as u64);
    out.append(":h");
    text::push_decimal(&mut out, horizon as u64);
    out.append(":w");
    text::push_decimal(&mut out, windows as u64);
    assert(out@ =~= key_text(dataset@, context as nat, horizon as nat, windows as nat));
    out
}

/// A number at the end of a text is told from what precedes it by a separator that does not end
/// in a digit.
proof fn lemma_split_number(a: Seq<char>, b: Seq<char>, sep: Seq<char>, m: nat, n: nat)
    requires
        a + sep + text::decimal(m) == b + sep + text::decimal(n),
        sep.len() > 0,
        !text::is_digit(sep.last()),
    ensures
        a == b,
        m == n,
{
    let x = a + sep + text::decimal(m);
    let y = b + sep + text::decimal(n);
    let d = text::decimal(m);
    let e = text::decimal(n);
    text::lemma_decimal_reads_back(m);
    text::lemma_decimal_reads_back(n);
    if d.len() < e.len() {
        let at = x.len() - d.len() - 1;
        assert(x[at] == sep.last());
        assert(y[at] == e[at - b.len() - sep.len()]);
        assert(text::is_digit(e[at - b.len() - sep.len()]));
    }
    if e.len() < d.len() {
        let at = y.len() - e.len() - 1;
        assert(y[at] == sep.last());
        assert(x[at] == d[at - a.len() - sep.len()]);
        assert(text::is_digit(d[at - a.len() - sep.len()]));
    }
    assert(d =~= x.subrange(x.len() - d.len(), x.len() as int));
    assert(e =~= y.subrange(y.len() - e.len(), y.len() as int));
    text::lemma_decimal_injective(m, n);
    assert(a =~= x.subrange(0, a.len() as int));
    assert(b =~= y.subrange(0, b.len() as int));
}

/// Different configurations have different keys.
pub proof fn law_keys_differ(
    d1: Seq<char>,
    c1: nat,
    h1: nat,
    w1: nat,
    d2: Seq<char>,
    c2: nat,
    h2: nat,
    w2: nat,
)
    requires
        key_text(d1, c1, h1, w1) == key_text(d2, c2, h2, w2),
    ensures
        d1 == d2,
        c1 == c2,
        h1 == h2,
        w1 == w2,
{
    reveal_strlit(":ctx");
    reveal_strlit(":h");
    reveal_strlit(":w");
    let a1 = d1 + ":ctx"@ + text::decimal(c1);
    let a2 = d2 + ":ctx"@ + text::decimal(c2);
    let b1 = a1 + ":h"@ + text::decimal(h1);
    let b2 = a2 + ":h"@ + text::decimal(h2);
    lemma_split_number(b1, b2, ":w"@, w1, w2);
    lemma_split_number(a1, a2, ":h"@, h1, h2);
    lemma_split_number(d1, d2, ":ctx"@, c1, c2);
}

/// The results of all configurations that have been run.
pub struct Cache {
    keys: Vec<String>,
    runs: Vec<CachedRun>,
}

impl Cache {
    /// The results under their keys.
    pub closed spec fn entries(&self) -> Map<Seq<char>, CachedRun> {
        Map::new(
            |k: Seq<char>| exists|i: int| 0 <= i < self.keys@.len() && #[trigger] self.keys@[i]@ == k,
            |k: Seq<char>|
                self.runs@[choose|i: int| 0 <= i < self.keys@.len() && #[trigger] self.keys@[i]@ == k],
        )
    }

    /// Every key stands once, beside its results.
    pub closed spec fn wf(&self) -> bool {
        &&& self.keys@.len() == self.runs@.len()
        &&& forall|i: int, j: int|
            0 <= i < j < self.keys@.len() ==> (#[trigger] self.keys@[i])@ != (#[trigger] self.keys@[j])@
    }

    /// The keys in the order in which they were first put in.
    pub closed spec fn key_list(&self) -> Seq<Seq<char>> {
        self.keys@.map_values(|k: String| k@)
    }

    /// The listed keys are those that have results, each listed once.
    pub proof fn law_keys_listed(&self)
        requires
            self.wf(),
        ensures
            self.key_list().no_duplicates(),
            forall|k: Seq<char>| self.key_list().contains(k) <==> self.entries().dom().contains(k),
    {
        assert forall|k: Seq<char>| self.key_list().contains(k) <==> self.entries().dom().contains(k) by {
            if self.key_list().contains(k) {
                let i = choose|i: int| 0 <= i < self.key_list().len() && self.key_list()[i] == k;
                assert(self.keys@[i]@ == k);
            }
            if self.entries().dom().contains(k) {
                let i = choose|i: int| 0 <= i < self.keys@.len() && #[trigger] self.keys@[i]@ == k;
                assert(self.key_list()[i] == k);
            }
        }
        assert forall|i: int, j: int| 0 <= i < j < self.key_list().len() implies self.key_list()[i]
            != self.key_list()[j] by {
            assert(self.keys@[i]@ != self.keys@[j]@);
        }
    }

    proof fn lemma_entry(&self, i: int)
        requires
            self.wf(),
            0 <= i < self.keys@.len(),
        ensures
            self.entries().dom().contains(self.keys@[i]@),
            self.entries()[self.keys@[i]@] == self.runs@[i],
    {
        let k = self.keys@[i]@;
        let j = choose|j: int| 0 <= j < self.keys@.len() && #[trigger] self.keys@[j]@ == k;
        assert(self.keys@[j]@ == k);
        assert(i == j);
    }

    /// A cache that holds nothing.
    pub fn new() -> (r: Self)
        ensures
            r.wf(),
            r.entries() == Map::<Seq<char>, CachedRun>::empty(),
            r.key_list() == Seq::<Seq<char>>::empty(),
    {
        let r = Cache { keys: Vec::new(), runs: Vec::new() };
        assert(r.entries() =~= Map::<Seq<char>, CachedRun>::empty());
        assert(r.key_list() =~= Seq::<Seq<char>>::empty());
        r
    }

    fn place(&self, key: &str) -> (r: usize)
        requires
            self.wf(),
        ensures
            r <= self.keys@.len(),
            r < self.keys@.len() ==> self.keys@[r as int]@ == key@,
            r == self.keys@.len() ==> !self.entries().dom().contains(key@),
    {
        let mut i: usize = 0;
        while i < self.keys.len()
            invariant
                i <= self.keys@.len(),
                forall|q: int| 0 <= q < i ==> (#[trigger] self.keys@[q])@ != key@,
            decreases self.keys@.len() - i,
        {
            if text::same(self.keys[i].as_str(), key) {
                return i;
            }
            i += 1;
        }
        i
    }

    /// The results under a key.
    pub fn get(&self, key: &str) -> (r: Option<&CachedRun>)
        requires
            self.wf(),
        ensures
            match r {
                Some(run) => self.entries().dom().contains(key@) && *run == self.entries()[key@],
                None => !self.entries().dom().contains(key@),
            },
    {
        let at: usize = self.place(key);
        if at < self.keys.len() {
            proof {
                self.lemma_entry(at as int);
            }
            Some(&self.runs[at])
        } else {
            None
        }
    }

    /// Puts results under a key, in place of any that stood there.
    pub fn insert(&mut self, key: String, run: CachedRun)
        requires
            old(self).wf(),
        ensures
            final(self).wf(),
            final(self).entries() == old(self).entries().insert(key@, run),
            final(self).key_list() == (if old(self).entries().dom().contains(key@) {
                old(self).key_list()
            } else {
                old(self).key_list().push(key@)
            }),
    {
        let ghost before = *self;
        let at: usize = self.place(key.as_str());
        if at < self.keys.len() {
            self.runs.set(at, run);
        } else {
            self.keys.push(key);
            self.runs.push(run);
        }
        proof {
            assert forall|k: Seq<char>| self.entries().dom().contains(k) <==> before.entries().insert(
                key@,
                run,
            ).dom().contains(k) by {
                if self.entries().dom().contains(k) && k != key@ {
                    let i = choose|i: int| 0 <= i < self.keys@.len() && #[trigger] self.keys@[i]@ == k;
                    assert(before.keys@[i]@ == k);
                }
                if before.entries().dom().contains(k) {
                    let i = choose|i: int| 0 <= i < before.keys@.len() && #[trigger] before.keys@[i]@ == k;
                    assert(self.keys@[i]@ == k);
                }
                if k == key@ {
                    assert(self.keys@[at as int]@ == k);
                }
            }
            assert forall|k: Seq<char>| self.entries().dom().contains(k) implies self.entries()[k]
                == before.entries().insert(key@, run)[k] by {
                let i = choose|i: int| 0 <= i < self.keys@.len() && #[trigger] self.keys@[i]@ == k;
                self.lemma_entry(i);
                if k == key@ {
                    assert(i == at);
                } else {
                    before.lemma_entry(i);
                }
            }
            assert(self.entries() =~= before.entries().insert(key@, run));
            if at < before.keys@.len() {
                before.lemma_entry(at as int);
                assert(self.key_list() =~= before.key_list());
            } else {
                assert(self.key_list() =~= before.key_list().push(key@));
            }
        }
    }

    /// The number of configurations that have results.
    pub fn len(&self) -> (r: usize)
        ensures
            r == self.key_list().len(),
    {
        self.keys.len()
    }

    /// The key that was put in at place `i`, and its results.
    pub fn entry(&self, i: usize) -> (r: (&str, &CachedRun))
        requires
            self.wf(),
            i < self.key_list().len(),
        ensures
            r.0@ == self.key_list()[i as int],
            *r.1 == self.entries()[r.0@],
    {
        proof {
            self.lemma_entry(i as int);
        }
        (self.keys[i].as_str(), &self.runs[i])
    }
}

proof fn lemma_solo_from(solo: Seq<(String, SoloResult)>, name: Seq<char>, from: int)
    requires
        0 <= from <= solo.len(),
    ensures
        match solo_among(solo, name, from) {
            Some(r) => exists|i: int| {
                &&& from <= i < solo.len()
                &&& (#[trigger] solo[i]).0@ == name
                &&& solo[i].1 == r
                &&& forall|j: int| from <= j < i ==> (#[trigger] solo[j]).0@ != name
            },
            None => forall|i: int| from <= i < solo.len() ==> (#[trigger] solo[i]).0@ != name,
        },
    decreases solo.len() - from,
{
    if from < solo.len() && solo[from].0@ != name {
        lemma_solo_from(solo, name, from + 1);
    }
}

/// A model's result is the first one under its name, and there is none where the name is not there.
pub proof fn law_results_by_name(solo: Seq<(String, SoloResult)>, name: Seq<char>)
    ensures
        match solo_among(solo, name, 0) {
            Some(r) => exists|i: int| {
                &&& 0 <= i < solo.len()
                &&& (#[trigger] solo[i]).0@ == name
                &&& solo[i].1 == r
                &&& forall|j: int| 0 <= j < i ==> (#[trigger] solo[j]).0@ != name
            },
            None => forall|i: int| 0 <= i < solo.len() ==> (#[trigger] solo[i]).0@ != name,
        },
{
    lemma_solo_from(solo, name, 0);
}

/// How a key is spelled.
pub proof fn law_keys_spelled(dataset: Seq<char>, context: nat, horizon: nat, windows: nat)
    ensures
        key_text(dataset, context, horizon, windows) == dataset + ":ctx"@ + text::decimal(context) + ":h"@ + text::decimal(
            horizon,
        ) + ":w"@ + text::decimal(windows),
{
}

} // verus!
