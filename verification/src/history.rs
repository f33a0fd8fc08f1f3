use vstd::prelude::*;

verus! {

/// How many captured colors the picker keeps.
pub const HISTORY_LIMIT: usize = 18;

/// The last `HISTORY_LIMIT` elements of `s` (all of `s` when shorter).
pub open spec fn latest<T>(s: Seq<T>) -> Seq<T> {
    if s.len() > HISTORY_LIMIT {
        s.skip(s.len() - HISTORY_LIMIT)
    } else {
        s
    }
}

/// The colors captured so far, oldest first, at most `HISTORY_LIMIT` of them.
pub struct History<T> {
    items: Vec<T>,
}

impl<T> View for History<T> {
    type V = Seq<T>;

    /// The kept captures, oldest first.
    closed spec fn view(&self) -> Seq<T> {
        self.items@
    }
}

impl<T> History<T> {
    #[verifier::type_invariant]
    spec fn bounded(self) -> bool {
        self.items.len() <= HISTORY_LIMIT
    }

    pub fn new() -> (h: History<T>)
        ensures
            h@ == Seq::<T>::empty(),
    {
        History { items: Vec::new() }
    }

    /// Records a capture; when that makes more than `HISTORY_LIMIT`, the
    /// oldest one is dropped.
    pub fn capture(&mut self, item: T)
        ensures
            final(self)@ == latest(old(self)@.push(item)),
            final(self)@.len() <= HISTORY_LIMIT,
            old(self)@.len() < HISTORY_LIMIT ==> final(self)@ == old(self)@.push(item),
            old(self)@.len() >= HISTORY_LIMIT ==> final(self)@ == old(self)@.drop_first().push(item),
    {
        proof {
            use_type_invariant(&*self);
        }
        let mut items: Vec<T> = Vec::new();
        std::mem::swap(&mut items, &mut self.items);
        items.push(item);
        if items.len() > HISTORY_LIMIT {
            items.remove(0);
        }
        assert(items@ =~= latest(old(self)@.push(item)));
        proof {
            lemma_capture_shape(old(self)@, item);
        }
        self.items = items;
    }

    /// The kept captures, oldest first.
    pub fn items(&self) -> (s: &[T])
        ensures
            s@ == self@,
    {
        self.items.as_slice()
    }

    pub fn len(&self) -> (n: usize)
        ensures
            n == self@.len(),
            n <= HISTORY_LIMIT,
    {
        proof {
            use_type_invariant(self);
        }
        self.items.len()
    }

    pub fn is_empty(&self) -> (e: bool)
        ensures
            e == (self@.len() == 0),
    {
        self.items.len() == 0
    }
}

/// Captures accumulate: recording `x` on a history that holds the latest
/// captures of `s` gives the latest captures of `s` followed by `x`, and the
/// newest capture is always the last one kept.
pub proof fn lemma_capture_keeps_latest<T>(s: Seq<T>, x: T)
    ensures
        latest(latest(s).push(x)) == latest(s.push(x)),
        latest(s.push(x)).len() <= HISTORY_LIMIT,
        latest(s.push(x)).last() == x,
{
    let n: nat = s.len();
    if n + 1 > HISTORY_LIMIT {
        assert(latest(latest(s).push(x)) =~= latest(s.push(x)));
    } else {
        assert(latest(s) == s);
    }
}

/// `latest(s)` is the last `min(len, HISTORY_LIMIT)` elements of `s`, in
/// their order.
pub proof fn lemma_latest_is_suffix<T>(s: Seq<T>)
    ensures
        latest(s).len() == if s.len() < HISTORY_LIMIT { s.len() } else { HISTORY_LIMIT as nat },
        forall|i: int|
            0 <= i < latest(s).len() ==> #[trigger] latest(s)[i] == s[s.len() - latest(s).len() + i],
{
}

/// A capture onto a history that is not full appends the item; onto a full
/// history it drops exactly the oldest item and appends the new one.
pub proof fn lemma_capture_shape<T>(v: Seq<T>, x: T)
    requires
        v.len() <= HISTORY_LIMIT,
    ensures
        v.len() < HISTORY_LIMIT ==> latest(v.push(x)) == v.push(x),
        v.len() == HISTORY_LIMIT ==> latest(v.push(x)) == v.drop_first().push(x),
        latest(v.push(x)).len() == if v.len() < HISTORY_LIMIT { v.len() + 1 } else { HISTORY_LIMIT as nat },
{
    if v.len() == HISTORY_LIMIT {
        assert(latest(v.push(x)) =~= v.drop_first().push(x));
    }
}

} // verus!
