//! The per-star verdicts that a rule evaluation narrows.
use vstd::prelude::*;

verus! {

/// Which part of a galaxy a rule speaks of.
#[derive(Debug, Clone, Copy, PartialEq, Eq, Structural)]
pub enum RuleTarget {
    Galaxy,
    Star,
    Planet,
}

/// `m` is the frontier of `s`: every verdict at `m` or later is known, and
/// the one just before `m`, if any, is not.
pub open spec fn is_frontier(s: Seq<Option<bool>>, m: int) -> bool {
    &&& 0 <= m <= s.len()
    &&& m == 0 || s[m - 1].is_none()
    &&& forall|i: int| m <= i < s.len() ==> #[trigger] s[i].is_some()
}

/// The accepted stars among the first `n`, in increasing order.
pub open spec fn accepted_indices(s: Seq<Option<bool>>, n: int) -> Seq<usize>
    decreases n,
{
    if n <= 0 {
        Seq::empty()
    } else if s[n - 1] == Some(true) {
        accepted_indices(s, n - 1).push((n - 1) as usize)
    } else {
        accepted_indices(s, n - 1)
    }
}

/// The stars not rejected among the first `n`, in increasing order.
pub open spec fn kept_indices(s: Seq<Option<bool>>, n: int) -> Seq<usize>
    decreases n,
{
    if n <= 0 {
        Seq::empty()
    } else if s[n - 1] != Some(false) {
        kept_indices(s, n - 1).push((n - 1) as usize)
    } else {
        kept_indices(s, n - 1)
    }
}

/// Every verdict is known.
pub open spec fn all_known(s: Seq<Option<bool>>) -> bool {
    forall|i: int| 0 <= i < s.len() ==> #[trigger] s[i].is_some()
}

/// The verdicts after confirming `idx`.
pub open spec fn confirm_all(s: Seq<Option<bool>>, idx: Seq<usize>) -> Seq<Option<bool>> {
    Seq::new(s.len(), |i: int| confirmed(s, idx, i))
}

/// The verdicts after rejecting every unknown star not in `idx`.
pub open spec fn reject_all_but(s: Seq<Option<bool>>, idx: Seq<usize>) -> Seq<Option<bool>> {
    Seq::new(s.len(), |i: int| rejected(s, idx, i))
}

/// Verdict of `i` after confirming the indices `idx` in `s`.
pub open spec fn confirmed(s: Seq<Option<bool>>, idx: Seq<usize>, i: int) -> Option<bool> {
    if s[i].is_none() && idx.contains(i as usize) {
        Some(true)
    } else {
        s[i]
    }
}

/// Verdict of `i` after rejecting, in `s`, the unknown stars not in `idx`.
pub open spec fn rejected(s: Seq<Option<bool>>, idx: Seq<usize>, i: int) -> Option<bool> {
    if s[i].is_none() && !idx.contains(i as usize) {
        Some(false)
    } else {
        s[i]
    }
}

/// A tri-state verdict per star: unknown (`None`), accepted or rejected,
/// with the frontier past which every verdict is known.
#[derive(Debug)]
pub struct Evaluaton {
    items: Vec<Option<bool>>,
    max_len: usize,
}

impl View for Evaluaton {
    type V = Seq<Option<bool>>;

    closed spec fn view(&self) -> Seq<Option<bool>> {
        self.items@
    }
}

impl Clone for Evaluaton {
    fn clone(&self) -> (r: Self)
        ensures
            r@ == self@,
            r.frontier() == self.frontier(),
            r.wf() == self.wf(),
    {
        Evaluaton { items: self.items.clone(), max_len: self.max_len }
    }
}

impl Evaluaton {
    pub closed spec fn frontier(&self) -> int {
        self.max_len as int
    }

    pub closed spec fn wf(&self) -> bool {
        &&& is_frontier(self.items@, self.max_len as int)
        &&& self.items@.len() <= usize::MAX
    }

    pub proof fn lemma_len_fits(&self)
        requires
            self.wf(),
        ensures
            self@.len() <= usize::MAX,
    {
    }

    /// Every star unknown.
    pub fn new(size: usize) -> (r: Self)
        ensures
            r.wf(),
            r@ == Seq::new(size as nat, |i: int| None::<bool>),
            r.frontier() == size,
    {
        let mut items: Vec<Option<bool>> = Vec::new();
        while items.len() < size
            invariant
                items.len() <= size,
                forall|i: int| 0 <= i < items@.len() ==> items@[i].is_none(),
            decreases size - items.len(),
        {
            items.push(None);
        }
        assert(items@ == Seq::new(size as nat, |i: int| None::<bool>));
        Evaluaton { items, max_len: size }
    }

    /// Number of stars.
    pub fn len(&self) -> (r: usize)
        ensures
            r == self@.len(),
    {
        self.items.len()
    }

    pub fn get_result(&self, index: usize) -> (r: Option<bool>)
        requires
            index < self@.len(),
        ensures
            r == self@[index as int],
    {
        self.items[index]
    }

    pub fn is_unknonwn(&self, index: usize) -> (r: bool)
        requires
            index < self@.len(),
        ensures
            r == self@[index as int].is_none(),
    {
        self.get_result(index).is_none()
    }

    pub fn is_known(&self, index: usize) -> (r: bool)
        requires
            index < self@.len(),
        ensures
            r == self@[index as int].is_some(),
    {
        self.get_result(index).is_some()
    }

    /// The frontier: every star from this index on is known.
    pub fn get_len(&self) -> (r: usize)
        requires
            self.wf(),
        ensures
            r == self.frontier(),
            is_frontier(self@, r as int),
    {
        self.max_len
    }

    /// Moves the frontier down to just past the last unknown star.
    fn load_max_len(&mut self)
        requires
            old(self).max_len <= old(self)@.len(),
            old(self)@.len() <= usize::MAX,
            forall|i: int|
                old(self).max_len <= i < old(self)@.len() ==> #[trigger] old(self)@[i].is_some(),
        ensures
            final(self)@ == old(self)@,
            final(self).wf(),
    {
        let mut x: usize = self.max_len;
        while x > 0
            invariant
                x <= self.items@.len(),
                self.items@.len() <= usize::MAX,
                forall|i: int| x <= i < self.items@.len() ==> #[trigger] self.items@[i].is_some(),
                self.items@ == old(self)@,
            decreases x,
        {
            if self.items[x - 1].is_none() {
                self.max_len = x;
                return;
            }
            x -= 1;
        }
        self.max_len = 0;
    }

    /// Accepts every unknown star among `indices`.
    pub fn confirm_many(&mut self, indices: &Vec<usize>)
        requires
            old(self).wf(),
            forall|k: int| 0 <= k < indices@.len() ==> indices@[k] < old(self)@.len(),
        ensures
            final(self).wf(),
            final(self)@.len() == old(self)@.len(),
            final(self)@ == confirm_all(old(self)@, indices@),
    {
        let ghost s0 = self.items@;
        let mut k: usize = 0;
        while k < indices.len()
            invariant
                0 <= k <= indices@.len(),
                self.items@.len() == s0.len(),
                self.max_len <= s0.len(),
                is_frontier(s0, self.max_len as int),
                forall|j: int| 0 <= j < indices@.len() ==> indices@[j] < s0.len(),
                forall|i: int|
                    0 <= i < s0.len() ==> #[trigger] self.items@[i] == confirmed(
                        s0,
                        indices@.subrange(0, k as int),
                        i,
                    ),
            decreases indices@.len() - k,
        {
            let index = indices[k];
            if self.items[index].is_none() {
                self.items.set(index, Some(true));
            }
            proof {
                let before = indices@.subrange(0, k as int);
                let after = indices@.subrange(0, k as int + 1);
                assert(after == before.push(index));
                assert forall|i: int| 0 <= i < s0.len() implies #[trigger] self.items@[i]
                    == confirmed(s0, after, i) by {
                    lemma_push_contains_iff(before, index, i as usize);
                }
            }
            k += 1;
        }
        assert(indices@.subrange(0, indices@.len() as int) == indices@);
        assert(self.items@ =~= confirm_all(s0, indices@));
        proof {
            assert forall|i: int| self.max_len <= i < self.items@.len() implies #[trigger] self.items@[i].is_some() by {
                assert(s0[i].is_some());
            }
        }
        self.load_max_len();
    }

    /// Rejects every unknown star not among `indices`.
    pub fn reject_others(&mut self, indices: &Vec<usize>)
        requires
            old(self).wf(),
        ensures
            final(self).wf(),
            final(self)@.len() == old(self)@.len(),
            final(self)@ == reject_all_but(old(self)@, indices@),
    {
        let ghost s0 = self.items@;
        let mut i: usize = 0;
        while i < self.items.len()
            invariant
                0 <= i <= s0.len(),
                self.items@.len() == s0.len(),
                self.max_len <= s0.len(),
                is_frontier(s0, self.max_len as int),
                forall|j: int| 0 <= j < i ==> #[trigger] self.items@[j] == rejected(s0, indices@, j),
                forall|j: int| i <= j < s0.len() ==> #[trigger] self.items@[j] == s0[j],
            decreases s0.len() - i,
        {
            if self.items[i].is_none() && !vec_contains(indices, i) {
                self.items.set(i, Some(false));
            }
            i += 1;
        }
        assert(self.items@ =~= reject_all_but(s0, indices@));
        proof {
            assert forall|j: int| self.max_len <= j < self.items@.len() implies #[trigger] self.items@[j].is_some() by {
                assert(s0[j].is_some());
            }
        }
        self.load_max_len();
    }

    /// The accepted stars, in increasing order.
    pub fn collect_known(&self) -> (r: Vec<usize>)
        ensures
            r@ == accepted_indices(self@, self@.len() as int),
    {
        let mut r: Vec<usize> = Vec::new();
        let mut i: usize = 0;
        while i < self.items.len()
            invariant
                0 <= i <= self.items@.len(),
                r@ == accepted_indices(self.items@, i as int),
            decreases self.items@.len() - i,
        {
            if self.items[i] == Some(true) {
                r.push(i);
            }
            i += 1;
        }
        r
    }

    /// The stars not rejected (unknown or accepted), in increasing order.
    pub fn collect_unknown(&self) -> (r: Vec<usize>)
        ensures
            r@ == kept_indices(self@, self@.len() as int),
    {
        let mut r: Vec<usize> = Vec::new();
        let mut i: usize = 0;
        while i < self.items.len()
            invariant
                0 <= i <= self.items@.len(),
                r@ == kept_indices(self.items@, i as int),
            decreases self.items@.len() - i,
        {
            if self.items[i] != Some(false) {
                r.push(i);
            }
            i += 1;
        }
        r
    }

    /// No star is left unknown.
    pub fn is_done(&self) -> (r: bool)
        requires
            self.wf(),
        ensures
            r == all_known(self@),
    {
        proof {
            assert(self@ == self.items@);
            if self.max_len > 0 {
                assert(!self@[self.max_len - 1].is_some());
            }
        }
        self.max_len == 0
    }
}

proof fn lemma_push_contains_iff(s: Seq<usize>, x: usize, y: usize)
    ensures
        s.push(x).contains(y) <==> (s.contains(y) || y == x),
{
    if s.push(x).contains(y) {
        let w = choose|w: int| 0 <= w < s.len() + 1 && s.push(x)[w] == y;
        if w < s.len() {
            assert(s[w] == y);
        }
    }
    if s.contains(y) || y == x {
        lemma_push_contains(s, x, y);
    }
}

proof fn lemma_push_contains(s: Seq<usize>, x: usize, y: usize)
    requires
        s.contains(y) || y == x,
    ensures
        s.push(x).contains(y),
{
    if y == x {
        assert(s.push(x)[s.len() as int] == x);
    } else {
        let w = choose|w: int| 0 <= w < s.len() && s[w] == y;
        assert(s.push(x)[w] == y);
    }
}

/// Whether `v` holds `x`.
pub fn vec_contains(v: &Vec<usize>, x: usize) -> (r: bool)
    ensures
        r == v@.contains(x),
{
    let mut k: usize = 0;
    while k < v.len()
        invariant
            0 <= k <= v@.len(),
            forall|j: int| 0 <= j < k ==> v@[j] != x,
        decreases v@.len() - k,
    {
        if v[k] == x {
            return true;
        }
        k += 1;
    }
    false
}

} // verus!
