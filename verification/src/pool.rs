//! Round-robin API-key pool: rotate across free-tier keys and ban exhausted
//! ones to dodge rate limits.
use std::collections::HashSet;

use vstd::arithmetic::div_mod::{lemma_mod_self_0, lemma_small_mod};
use vstd::prelude::*;
use vstd::std_specs::hash::group_hash_axioms;

use crate::text::{csv_entries, csv_entry_strings};

verus! {

broadcast use group_hash_axioms;

/// The abstract state of a [`KeyPool`].
pub struct KeyPoolView {
    /// The keys, in rotation order.
    pub keys: Seq<Seq<char>>,
    /// Indices of the keys that were banned.
    pub banned: Set<usize>,
    /// Index the next rotation starts from.
    pub cursor: usize,
    /// Index of the key most recently handed out, if any is pending a ban.
    pub last: Option<usize>,
}

impl KeyPoolView {
    /// The invariant every pool keeps: banned indices and the pending index
    /// name existing keys, and the cursor points at a key (or is 0 when there
    /// are none).
    pub open spec fn wf(self) -> bool {
        &&& self.keys.len() <= usize::MAX
        &&& forall|i: usize| self.banned.contains(i) ==> i < self.keys.len()
        &&& if self.keys.len() == 0 {
            self.cursor == 0
        } else {
            self.cursor < self.keys.len()
        }
        &&& self.last matches Some(i) ==> i < self.keys.len()
    }

    /// The index reached `k` steps after index `c` in a rotation over `n` keys.
    pub open spec fn step(c: usize, k: nat, n: nat) -> int {
        (c + k) % (n as int)
    }

    /// Among the rotation steps `k, k+1, .., n-1` from the cursor, the first
    /// that lands on a key that is not banned.
    pub open spec fn free_step_from(self, k: nat) -> Option<nat>
        decreases self.keys.len() - k,
    {
        if k >= self.keys.len() {
            None
        } else if !self.banned.contains(Self::step(self.cursor, k, self.keys.len()) as usize) {
            Some(k)
        } else {
            self.free_step_from(k + 1)
        }
    }

    /// The first rotation step from the cursor that lands on a usable key.
    pub open spec fn free_step(self) -> Option<nat> {
        self.free_step_from(0)
    }

    /// The index `next_key` hands out, if any.
    pub open spec fn next_index(self) -> Option<usize> {
        match self.free_step() {
            Some(k) => Some(Self::step(self.cursor, k, self.keys.len()) as usize),
            None => None,
        }
    }

    /// The number of keys that are not banned.
    pub open spec fn available(self) -> nat {
        (self.keys.len() - self.banned.len()) as nat
    }
}

/// A rotating pool of API keys.
#[derive(Debug)]
pub struct KeyPool {
    keys: Vec<String>,
    banned: HashSet<usize>,
    cursor: usize,
    last: Option<usize>,
}

impl View for KeyPool {
    type V = KeyPoolView;

    closed spec fn view(&self) -> KeyPoolView {
        KeyPoolView {
            keys: self.keys@.map_values(|k: String| k@),
            banned: self.banned@,
            cursor: self.cursor,
            last: self.last,
        }
    }
}

/// The set of indices below `n`.
spec fn index_range(n: usize) -> Set<usize> {
    Set::new(|i: usize| i < n)
}

proof fn lemma_index_range(n: usize)
    ensures
        index_range(n).finite(),
        index_range(n).len() == n,
    decreases n,
{
    if n == 0 {
        assert(index_range(n) =~= Set::empty());
    } else {
        lemma_index_range((n - 1) as usize);
        assert(index_range((n - 1) as usize).insert((n - 1) as usize) =~= index_range(n));
    }
}

/// A set of indices below `n` has at most `n` elements.
proof fn lemma_banned_bounded(banned: Set<usize>, n: usize)
    requires
        forall|i: usize| banned.contains(i) ==> i < n,
    ensures
        banned.finite(),
        banned.len() <= n,
{
    lemma_index_range(n);
    vstd::set_lib::lemma_len_subset(banned, index_range(n));
}


/// Law: an index returned by the rotation is never a banned one, so a banned
/// key is never handed out again.
pub proof fn lemma_banned_never_handed_out(v: KeyPoolView, i: usize)
    requires
        v.wf(),
        v.banned.contains(i),
    ensures
        v.next_index() != Some(i),
{
    if v.free_step() is Some {
        lemma_free_step_found(v, 0);
    }
}

/// Law: the rotation yields a key exactly when some key is still usable.
pub proof fn lemma_next_key_some_iff_available(v: KeyPoolView)
    requires
        v.wf(),
    ensures
        v.next_index() is Some <==> v.available() > 0,
        v.banned.len() <= v.keys.len(),
{
    let n = v.keys.len();
    lemma_banned_bounded(v.banned, n as usize);
    if v.free_step() is Some {
        lemma_free_step_found(v, 0);
        let k = v.free_step()->0;
        let j = KeyPoolView::step(v.cursor, k, n) as usize;
        assert(0 <= KeyPoolView::step(v.cursor, k, n) < n) by {
            vstd::arithmetic::div_mod::lemma_mod_bound((v.cursor + k) as int, n as int);
        }
        assert(v.banned.subset_of(index_range(n as usize).remove(j)));
        lemma_index_range(n as usize);
        vstd::set_lib::lemma_len_subset(v.banned, index_range(n as usize).remove(j));
    } else if v.available() > 0 {
        // some index below n is not banned
        assert(!(index_range(n as usize).subset_of(v.banned))) by {
            if index_range(n as usize).subset_of(v.banned) {
                lemma_index_range(n as usize);
                vstd::set_lib::lemma_len_subset(index_range(n as usize), v.banned);
            }
        }
        let j = choose|j: usize| index_range(n as usize).contains(j) && !v.banned.contains(j);
        let k: nat = if j >= v.cursor { (j - v.cursor) as nat } else { (j + n - v.cursor) as nat };
        assert(KeyPoolView::step(v.cursor, k, n) == j) by {
            if j >= v.cursor {
                lemma_small_mod(j as nat, n);
            } else {
                vstd::arithmetic::div_mod::lemma_mod_add_multiples_vanish(j as int, n as int);
                lemma_small_mod(j as nat, n);
            }
        }
        lemma_free_step_reaches(v, 0, k);
    }
}

proof fn lemma_free_step_found(v: KeyPoolView, k: nat)
    requires
        v.free_step_from(k) is Some,
    ensures
        k <= v.free_step_from(k)->0 < v.keys.len(),
        !v.banned.contains(KeyPoolView::step(v.cursor, v.free_step_from(k)->0, v.keys.len()) as usize),
    decreases v.keys.len() - k,
{
    if k < v.keys.len() && v.banned.contains(KeyPoolView::step(v.cursor, k, v.keys.len()) as usize) {
        lemma_free_step_found(v, k + 1);
    }
}

proof fn lemma_free_step_reaches(v: KeyPoolView, k: nat, target: nat)
    requires
        k <= target < v.keys.len(),
        !v.banned.contains(KeyPoolView::step(v.cursor, target, v.keys.len()) as usize),
    ensures
        v.free_step_from(k) is Some,
    decreases target - k,
{
    if k < target && v.banned.contains(KeyPoolView::step(v.cursor, k, v.keys.len()) as usize) {
        lemma_free_step_reaches(v, k + 1, target);
    }
}

/// Law: banning a usable key lowers the number of usable keys by one.
pub proof fn lemma_ban_lowers_available(v: KeyPoolView, i: usize)
    requires
        v.wf(),
        i < v.keys.len(),
        !v.banned.contains(i),
    ensures
        v.banned.insert(i).len() == v.banned.len() + 1,
        v.banned.insert(i).len() <= v.keys.len(),
        v.keys.len() - v.banned.insert(i).len() + 1 == v.available(),
{
    lemma_banned_bounded(v.banned, v.keys.len() as usize);
    lemma_banned_bounded(v.banned.insert(i), v.keys.len() as usize);
}

impl KeyPool {
    #[verifier::type_invariant]
    spec fn inv(self) -> bool {
        &&& self.keys@.len() <= usize::MAX
        &&& forall|i: usize| self.banned@.contains(i) ==> i < self.keys@.len()
        &&& if self.keys@.len() == 0 {
            self.cursor == 0
        } else {
            self.cursor < self.keys@.len()
        }
        &&& self.last matches Some(i) ==> i < self.keys@.len()
    }

    /// A pool over `keys`, with nothing banned and the rotation at the first key.
    pub fn new(keys: Vec<String>) -> (p: Self)
        ensures
            p@.keys == keys@.map_values(|k: String| k@),
            p@.banned == Set::<usize>::empty(),
            p@.cursor == 0,
            p@.last is None,
            p@.wf(),
    {
        proof {
            // A vector's length always fits in `usize`.
            assert(keys@.len() == keys.len());
        }
        KeyPool { keys, banned: HashSet::new(), cursor: 0, last: None }
    }

    /// A pool over a comma-separated key list (e.g. the `GEMINI_API_KEYS`
    /// variable): every entry is trimmed and empty entries are dropped.
    pub fn from_csv(s: &str) -> (p: Self)
        ensures
            p@.keys == csv_entries(s@),
            p@.banned == Set::<usize>::empty(),
            p@.cursor == 0,
            p@.last is None,
            p@.wf(),
    {
        let keys = csv_entry_strings(s);
        let p = Self::new(keys);
        assert(p@.keys =~= csv_entries(s@));
        p
    }

    proof fn lemma_free_step_skip(v: KeyPoolView, k: nat)
        requires
            k < v.keys.len(),
            v.banned.contains(KeyPoolView::step(v.cursor, k, v.keys.len()) as usize),
        ensures
            v.free_step_from(k) == v.free_step_from(k + 1),
    {
    }


    /// The next usable key in round-robin order, skipping banned ones. The
    /// index handed out is remembered so that [`ban_last`](Self::ban_last) can
    /// ban it; the rotation resumes after it.
    pub fn next_key(&mut self) -> (r: Option<String>)
        ensures
            old(self)@.wf(),
            final(self)@.wf(),
            final(self)@.keys == old(self)@.keys,
            final(self)@.banned == old(self)@.banned,
            match old(self)@.next_index() {
                Some(i) => {
                    &&& r is Some
                    &&& r->0@ == old(self)@.keys[i as int]
                    &&& final(self)@.last == Some(i)
                    &&& final(self)@.cursor == (i + 1) % (old(self)@.keys.len() as int)
                },
                None => {
                    &&& r is None
                    &&& final(self)@.last == old(self)@.last
                    &&& final(self)@.cursor == old(self)@.cursor
                },
            },
    {
        proof {
            use_type_invariant(&*self);
        }
        let ghost v0 = self@;
        let n = self.keys.len();
        if n == 0 {
            return None;
        }
        let c0 = self.cursor;
        let ghost keys0 = self.keys@;
        let ghost banned0 = self.banned@;
        proof {
            lemma_small_mod(c0 as nat, n as nat);
        }
        let mut t: usize = 0;
        while t < n
            invariant
                old(self)@ == v0,
                self.keys@ == keys0,
                self.banned@ == banned0,
                v0.keys == keys0.map_values(|k: String| k@),
                v0.banned == banned0,
                self@.last == v0.last,
                n == v0.keys.len(),
                n > 0,
                c0 == v0.cursor,
                t <= n,
                c0 < n,
                self.cursor as int == KeyPoolView::step(c0, t as nat, n as nat),
                v0.free_step() == v0.free_step_from(t as nat),
            decreases n - t,
        {
            proof {
                use_type_invariant(&*self);
            }
            let i = self.cursor % n;
            proof {
                lemma_small_mod(self.cursor as nat, n as nat);
            }
            let next = (self.cursor + 1) % n;
            proof {
                if self.cursor + 1 < n {
                    lemma_small_mod((self.cursor + 1) as nat, n as nat);
                } else {
                    lemma_mod_self_0(n as int);
                }
                vstd::arithmetic::div_mod::lemma_add_mod_noop(c0 as int, t as int, n as int);
                vstd::arithmetic::div_mod::lemma_add_mod_noop(c0 as int, (t + 1) as int, n as int);
                vstd::arithmetic::div_mod::lemma_add_mod_noop(c0 + t, 1, n as int);
                if n > 1 {
                    lemma_small_mod(1, n as nat);
                } else {
                    lemma_mod_self_0(1);
                }
                vstd::arithmetic::div_mod::lemma_mod_twice(c0 + t, n as int);
            }
            self.cursor = next;
            if !self.banned.contains(&i) {
                self.last = Some(i);
                let k = self.keys[i].clone();
                proof {
                    assert(v0.free_step_from(t as nat) == Some(t as nat));
                }
                return Some(k);
            }
            proof {
                Self::lemma_free_step_skip(v0, t as nat);
            }
            t = t + 1;
        }
        proof {
            vstd::arithmetic::div_mod::lemma_add_mod_noop(c0 as int, n as int, n as int);
            lemma_mod_self_0(n as int);
            lemma_small_mod(c0 as nat, n as nat);
        }
        None
    }

    /// Ban the key most recently returned by [`next_key`](Self::next_key); it
    /// is never handed out again. Does nothing when no key is pending.
    pub fn ban_last(&mut self)
        ensures
            old(self)@.wf(),
            final(self)@.wf(),
            final(self)@.keys == old(self)@.keys,
            final(self)@.cursor == old(self)@.cursor,
            final(self)@.last is None,
            final(self)@.banned == match old(self)@.last {
                Some(i) => old(self)@.banned.insert(i),
                None => old(self)@.banned,
            },
    {
        proof {
            use_type_invariant(&*self);
        }
        let pending = self.last;
        self.last = None;
        proof {
            use_type_invariant(&*self);
        }
        if let Some(i) = pending {
            let mut banned: HashSet<usize> = HashSet::new();
            std::mem::swap(&mut banned, &mut self.banned);
            banned.insert(i);
            self.banned = banned;
        }
        proof {
            use_type_invariant(&*self);
        }
    }

    /// Number of keys still usable.
    pub fn available(&self) -> (r: usize)
        ensures
            self@.wf(),
            r == self@.available(),
    {
        proof {
            use_type_invariant(self);
            lemma_banned_bounded(self.banned@, self.keys.len());
        }
        self.keys.len().saturating_sub(self.banned.len())
    }

    /// Whether every key is banned.
    pub fn is_exhausted(&self) -> (b: bool)
        ensures
            b == (self@.available() == 0),
    {
        self.available() == 0
    }
}

impl Clone for KeyPool {
    /// An independent pool in the same state.
    fn clone(&self) -> (p: Self)
        ensures
            p@ == self@,
    {
        proof {
            use_type_invariant(self);
        }
        let n = self.keys.len();
        let mut keys: Vec<String> = Vec::new();
        let mut banned: HashSet<usize> = HashSet::new();
        let mut i: usize = 0;
        while i < n
            invariant
                i <= n,
                n == self.keys@.len(),
                keys@.len() == i,
                forall|j: int| 0 <= j < i ==> #[trigger] keys@[j] == self.keys@[j],
                forall|j: usize| banned@.contains(j) <==> (j < i && self.banned@.contains(j)),
            decreases n - i,
        {
            keys.push(self.keys[i].clone());
            if self.banned.contains(&i) {
                banned.insert(i);
            }
            i = i + 1;
        }
        assert(keys@ =~= self.keys@);
        assert(banned@ =~= self.banned@);
        KeyPool { keys, banned, cursor: self.cursor, last: self.last }
    }
}

impl Default for KeyPool {
    fn default() -> (p: Self)
        ensures
            p@.keys == Seq::<Seq<char>>::empty(),
            p@.banned == Set::<usize>::empty(),
            p@.cursor == 0,
            p@.last is None,
    {
        let p = KeyPool::new(Vec::new());
        assert(p@.keys =~= Seq::<Seq<char>>::empty());
        p
    }
}

} // verus!
