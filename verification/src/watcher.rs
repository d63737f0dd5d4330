use vstd::prelude::*;

verus! {

/// The value a watcher held before its latest update, and the latest one.
pub struct Pair<T> {
    pub old: T,
    pub current: T,
}

/// Keeps the last two values seen of a game variable, so that a change
/// between two ticks can be noticed.
pub struct Watcher<T> {
    pub pair: Option<Pair<T>>,
}

impl<T> Pair<T> {
    /// The value moved between the two latest updates.
    pub open spec fn has_changed(self) -> bool {
        self.old != self.current
    }
}

/// The pair a watcher holds after `value` was given to it.
pub open spec fn updated_pair<T>(pair: Option<Pair<T>>, value: T) -> Pair<T> {
    match pair {
        Some(p) => Pair { old: p.current, current: value },
        None => Pair { old: value, current: value },
    }
}

impl<T> Watcher<T> {
    /// A watcher that has seen no value yet.
    pub fn new() -> (w: Self)
        ensures
            w.pair is None,
    {
        Watcher { pair: None }
    }
}

impl Watcher<u32> {
    /// Records `value` as the current value; the previous current value (or
    /// `value` itself, on the first update) becomes the old one.
    pub fn update_infallible(&mut self, value: u32)
        ensures
            final(self).pair == Some(updated_pair(old(self).pair, value)),
    {
        let old_value = match &self.pair {
            Some(p) => p.current,
            None => value,
        };
        self.pair = Some(Pair { old: old_value, current: value });
    }
}

impl Pair<u32> {
    /// Whether the value moved between the two latest updates.
    pub fn changed(&self) -> (r: bool)
        ensures
            r == self.has_changed(),
    {
        self.old != self.current
    }
}

/// A copy of `v`.
pub fn copy_chars(v: &Vec<char>) -> (r: Vec<char>)
    ensures
        r@ == v@,
{
    let mut r: Vec<char> = Vec::new();
    let mut i: usize = 0;
    while i < v.len()
        invariant
            i <= v@.len(),
            r@ == v@.subrange(0, i as int),
        decreases v@.len() - i,
    {
        r.push(v[i]);
        i = i + 1;
        assert(r@ =~= v@.subrange(0, i as int));
    }
    assert(v@.subrange(0, v@.len() as int) =~= v@);
    r
}

/// Whether two character vectors hold the same characters.
pub fn same_chars(a: &Vec<char>, b: &Vec<char>) -> (r: bool)
    ensures
        r == (a@ == b@),
{
    if a.len() != b.len() {
        return false;
    }
    let mut i: usize = 0;
    while i < a.len()
        invariant
            a@.len() == b@.len(),
            i <= a@.len(),
            forall|j: int| 0 <= j < i ==> a@[j] == b@[j],
        decreases a@.len() - i,
    {
        if a[i] != b[i] {
            return false;
        }
        i = i + 1;
    }
    assert(a@ =~= b@);
    true
}

/// The abstract content of a watcher of names: the pair of the two latest
/// names, each as its characters.
pub open spec fn name_pair_view(pair: Option<Pair<Vec<char>>>) -> Option<Pair<Seq<char>>> {
    match pair {
        Some(p) => Some(Pair { old: p.old@, current: p.current@ }),
        None => None,
    }
}

impl Watcher<Vec<char>> {
    /// The watcher's pair, with each name taken as its characters.
    pub open spec fn names(&self) -> Option<Pair<Seq<char>>> {
        name_pair_view(self.pair)
    }

    /// Records `value` as the current name; the previous current name (or
    /// `value` itself, on the first update) becomes the old one.
    pub fn update_infallible(&mut self, value: Vec<char>)
        ensures
            final(self).names() == Some(updated_pair(old(self).names(), value@)),
    {
        let old_value = match &self.pair {
            Some(p) => copy_chars(&p.current),
            None => copy_chars(&value),
        };
        self.pair = Some(Pair { old: old_value, current: value });
    }
}

impl Pair<Vec<char>> {
    /// Whether the name moved between the two latest updates.
    pub fn changed(&self) -> (r: bool)
        ensures
            r == (self.old@ != self.current@),
    {
        !same_chars(&self.old, &self.current)
    }
}

/// Updating a watcher twice with the same value leaves it reporting no
/// change, whatever it held before.
pub proof fn lemma_repeat_update_settles<T>(pair: Option<Pair<T>>, value: T)
    ensures
        !updated_pair(Some(updated_pair(pair, value)), value).has_changed(),
{
}

/// After an update the watcher reports a change exactly when the new value
/// differs from the value that was current before; a first update reports
/// none.
pub proof fn lemma_update_reports_change<T>(pair: Option<Pair<T>>, value: T)
    ensures
        updated_pair(pair, value).has_changed() <==> (pair matches Some(p) && p.current
            != value),
        updated_pair(pair, value).current == value,
{
}

} // verus!
