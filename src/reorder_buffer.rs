use vstd::prelude::*;

use crate::frame::VideoPacket;

verus! {

/// Most frames a stream holds back while it waits for a gap to fill.
pub const MAX_BUFFER_SIZE: usize = 100;

/// Sequence numbers strictly increase along `s`.
pub open spec fn ascending(s: Seq<VideoPacket>) -> bool {
    forall|i: int, j: int|
        0 <= i < j < s.len() ==> #[trigger] s[i].sequence_number < #[trigger] s[j].sequence_number
}

/// Position `p` parts `s` into the frames numbered below `k` and the rest.
pub open spec fn splits_at(s: Seq<VideoPacket>, k: int, p: int) -> bool {
    &&& 0 <= p <= s.len()
    &&& forall|i: int| 0 <= i < p ==> #[trigger] s[i].sequence_number < k
    &&& forall|i: int| p <= i < s.len() ==> #[trigger] s[i].sequence_number >= k
}

/// How many frames of an ascending `s` are numbered below `k`.
pub open spec fn lower_bound(s: Seq<VideoPacket>, k: int) -> int {
    choose|p: int| splits_at(s, k, p)
}

/// Some frame of `s` is numbered `k`.
pub open spec fn has_key(s: Seq<VideoPacket>, k: int) -> bool {
    exists|i: int| 0 <= i < s.len() && #[trigger] s[i].sequence_number == k
}

/// The frame of `s` numbered `k` (meaningful where `has_key(s, k)`).
pub open spec fn frame_at(s: Seq<VideoPacket>, k: int) -> VideoPacket {
    s[lower_bound(s, k)]
}

/// `s` without the frames numbered below `t`.
pub open spec fn prune(s: Seq<VideoPacket>, t: int) -> Seq<VideoPacket> {
    s.subrange(lower_bound(s, t), s.len() as int)
}

/// `s` without its frame numbered `k`.
pub open spec fn remove_key(s: Seq<VideoPacket>, k: int) -> Seq<VideoPacket> {
    s.remove(lower_bound(s, k))
}

/// `s` with `f` stored under its sequence number, replacing a frame already
/// stored there.
pub open spec fn insert_frame(s: Seq<VideoPacket>, f: VideoPacket) -> Seq<VideoPacket> {
    let p = lower_bound(s, f.sequence_number as int);
    if has_key(s, f.sequence_number as int) {
        s.update(p, f)
    } else {
        s.insert(p, f)
    }
}

/// Stores `f`; where that would take the buffer past its bound, the oldest
/// buffered frame is evicted first.
pub open spec fn insert_bounded(s: Seq<VideoPacket>, f: VideoPacket) -> Seq<VideoPacket> {
    if !has_key(s, f.sequence_number as int) && s.len() >= MAX_BUFFER_SIZE {
        insert_frame(s.drop_first(), f)
    } else {
        insert_frame(s, f)
    }
}

/// The sequence numbers of `s`, in order.
pub open spec fn keys_of(s: Seq<VideoPacket>) -> Seq<u64> {
    s.map_values(|f: VideoPacket| f.sequence_number)
}

proof fn lemma_split_exists(s: Seq<VideoPacket>, k: int) -> (p: int)
    requires
        ascending(s),
    ensures
        splits_at(s, k, p),
    decreases s.len(),
{
    if s.len() == 0 {
        0
    } else {
        let t = s.drop_last();
        assert(ascending(t));
        let q = lemma_split_exists(t, k);
        let n = s.len() - 1;
        if s[n].sequence_number < k {
            if q < n {
                assert(t[q].sequence_number >= k);
                assert(s[q].sequence_number < s[n].sequence_number);
            }
            assert forall|i: int| 0 <= i < s.len() implies #[trigger] s[i].sequence_number < k by {
                if i < n {
                    assert(t[i] == s[i]);
                }
            }
            s.len() as int
        } else {
            assert forall|i: int| q <= i < s.len() implies #[trigger] s[i].sequence_number >= k by {
                if i < n {
                    assert(t[i] == s[i]);
                }
            }
            assert forall|i: int| 0 <= i < q implies #[trigger] s[i].sequence_number < k by {
                assert(t[i] == s[i]);
            }
            q
        }
    }
}

/// In an ascending sequence the split point of `k` exists and is unique.
pub proof fn lemma_lower_bound(s: Seq<VideoPacket>, k: int)
    requires
        ascending(s),
    ensures
        splits_at(s, k, lower_bound(s, k)),
        forall|p: int| splits_at(s, k, p) ==> p == lower_bound(s, k),
{
    let w = lemma_split_exists(s, k);
    let l = lower_bound(s, k);
    assert(splits_at(s, k, l));
    assert forall|p: int| splits_at(s, k, p) implies p == l by {
        if p < l {
            assert(s[p].sequence_number >= k);
        } else if p > l {
            assert(s[l].sequence_number >= k);
        }
    }
}

/// In an ascending sequence, `k` is stored exactly at its split point.
pub proof fn lemma_has_key(s: Seq<VideoPacket>, k: int)
    requires
        ascending(s),
    ensures
        has_key(s, k) <==> (lower_bound(s, k) < s.len() && s[lower_bound(s, k)].sequence_number
            == k),
{
    lemma_lower_bound(s, k);
    let l = lower_bound(s, k);
    if has_key(s, k) {
        let i = choose|i: int| 0 <= i < s.len() && #[trigger] s[i].sequence_number == k;
        if i < l {
        } else if i > l {
            assert(s[l].sequence_number < s[i].sequence_number);
        }
    }
}

/// Dropping the oldest frame keeps the order and loses no other key.
proof fn lemma_drop_first(s: Seq<VideoPacket>, k: int)
    requires
        ascending(s),
        s.len() > 0,
        !has_key(s, k),
    ensures
        ascending(s.drop_first()),
        !has_key(s.drop_first(), k),
{
    let t = s.drop_first();
    assert forall|i: int, j: int| 0 <= i < j < t.len() implies #[trigger] t[i].sequence_number
        < #[trigger] t[j].sequence_number by {
        assert(t[i] == s[i + 1] && t[j] == s[j + 1]);
    }
    if has_key(t, k) {
        let i = choose|i: int| 0 <= i < t.len() && #[trigger] t[i].sequence_number == k;
        assert(s[i + 1].sequence_number == k);
    }
}

/// Storing a frame keeps the order, and grows the buffer by one exactly when
/// its key was new.
pub proof fn lemma_insert_frame(s: Seq<VideoPacket>, f: VideoPacket)
    requires
        ascending(s),
    ensures
        ascending(insert_frame(s, f)),
        has_key(insert_frame(s, f), f.sequence_number as int),
        insert_frame(s, f).len() == s.len() + (if has_key(s, f.sequence_number as int) {
            0int
        } else {
            1int
        }),
{
    let k = f.sequence_number as int;
    lemma_lower_bound(s, k);
    lemma_has_key(s, k);
    let p = lower_bound(s, k);
    let r = insert_frame(s, f);
    assert(r[p] == f);
    assert forall|i: int, j: int| 0 <= i < j < r.len() implies #[trigger] r[i].sequence_number
        < #[trigger] r[j].sequence_number by {
        if r.len() == s.len() {
            if i != p {
                assert(r[i] == s[i]);
            }
            if j != p {
                assert(r[j] == s[j]);
            }
            if i == p {
                assert(s[p].sequence_number == k);
            } else if j == p {
                assert(s[p].sequence_number == k);
            }
        } else {
            if i < p {
                assert(r[i] == s[i]);
            } else if i > p {
                assert(r[i] == s[i - 1]);
            }
            if j < p {
                assert(r[j] == s[j]);
            } else if j > p {
                assert(r[j] == s[j - 1]);
            }
        }
    }
}

/// The bounded store keeps the order and the bound, and holds `f` after.
pub proof fn lemma_insert_bounded(s: Seq<VideoPacket>, f: VideoPacket)
    requires
        ascending(s),
        s.len() <= MAX_BUFFER_SIZE,
    ensures
        ascending(insert_bounded(s, f)),
        insert_bounded(s, f).len() <= MAX_BUFFER_SIZE,
        has_key(insert_bounded(s, f), f.sequence_number as int),
{
    let k = f.sequence_number as int;
    if !has_key(s, k) && s.len() >= MAX_BUFFER_SIZE {
        lemma_drop_first(s, k);
        lemma_insert_frame(s.drop_first(), f);
    } else {
        lemma_insert_frame(s, f);
    }
}

/// The frames held back by one stream, keyed and ordered by sequence number.
pub struct ReorderBuffer {
    entries: Vec<VideoPacket>,
}

impl View for ReorderBuffer {
    type V = Seq<VideoPacket>;

    closed spec fn view(&self) -> Seq<VideoPacket> {
        self.entries@
    }
}

impl ReorderBuffer {
    /// Keys are unique and ascending, and the bound holds.
    pub open spec fn wf(&self) -> bool {
        ascending(self@) && self@.len() <= MAX_BUFFER_SIZE
    }

    pub fn new() -> (r: Self)
        ensures
            r.wf(),
            r@ == Seq::<VideoPacket>::empty(),
    {
        ReorderBuffer { entries: Vec::new() }
    }

    pub fn len(&self) -> (r: usize)
        ensures
            r == self@.len(),
    {
        self.entries.len()
    }

    /// Index of the first frame numbered `k` or above.
    fn lower_bound_index(&self, k: u64) -> (r: usize)
        requires
            self.wf(),
        ensures
            r == lower_bound(self@, k as int),
    {
        let mut i: usize = 0;
        while i < self.entries.len() && self.entries[i].sequence_number < k
            invariant
                self.wf(),
                0 <= i <= self@.len(),
                forall|j: int| 0 <= j < i ==> #[trigger] self@[j].sequence_number < k,
            decreases self@.len() - i,
        {
            i = i + 1;
        }
        proof {
            lemma_lower_bound(self@, k as int);
            assert forall|j: int| i <= j < self@.len() implies #[trigger] self@[j].sequence_number
                >= k by {
                if j > i {
                    assert(self@[i as int].sequence_number < self@[j].sequence_number);
                }
            }
            assert(splits_at(self@, k as int, i as int));
        }
        i
    }

    pub fn contains_key(&self, k: u64) -> (r: bool)
        requires
            self.wf(),
        ensures
            r == has_key(self@, k as int),
    {
        let p = self.lower_bound_index(k);
        proof {
            lemma_has_key(self@, k as int);
        }
        p < self.entries.len() && self.entries[p].sequence_number == k
    }

    /// Drops every frame numbered below `t`.
    pub fn prune(&mut self, t: u64)
        requires
            old(self).wf(),
        ensures
            final(self).wf(),
            final(self)@ == prune(old(self)@, t as int),
    {
        let ghost s0 = self@;
        let ghost mut n: int = 0;
        while self.entries.len() > 0 && self.entries[0].sequence_number < t
            invariant
                ascending(s0),
                0 <= n <= s0.len(),
                self@ == s0.subrange(n, s0.len() as int),
                forall|j: int| 0 <= j < n ==> #[trigger] s0[j].sequence_number < t,
            decreases self@.len(),
        {
            self.entries.remove(0);
            proof {
                assert(s0[n].sequence_number < t);
                n = n + 1;
                assert(self@ =~= s0.subrange(n, s0.len() as int));
            }
        }
        proof {
            lemma_lower_bound(s0, t as int);
            assert forall|j: int| n <= j < s0.len() implies #[trigger] s0[j].sequence_number
                >= t by {
                assert(s0[n].sequence_number == self@[0].sequence_number);
                if j > n {
                    assert(s0[n].sequence_number < s0[j].sequence_number);
                }
            }
            assert(splits_at(s0, t as int, n));
        }
    }

    /// Takes out the frame numbered `k`, if one is buffered.
    pub fn take(&mut self, k: u64) -> (r: Option<VideoPacket>)
        requires
            old(self).wf(),
        ensures
            final(self).wf(),
            has_key(old(self)@, k as int) ==> r == Some(frame_at(old(self)@, k as int))
                && final(self)@ == remove_key(old(self)@, k as int),
            !has_key(old(self)@, k as int) ==> r.is_none() && final(self)@ == old(self)@,
    {
        let p = self.lower_bound_index(k);
        proof {
            lemma_has_key(self@, k as int);
        }
        if p < self.entries.len() && self.entries[p].sequence_number == k {
            let f = self.entries.remove(p);
            Some(f)
        } else {
            None
        }
    }

    /// Stores `f` under its sequence number; at the bound, the oldest buffered
    /// frame makes room.
    pub fn insert(&mut self, f: VideoPacket)
        requires
            old(self).wf(),
        ensures
            final(self).wf(),
            final(self)@ == insert_bounded(old(self)@, f),
    {
        let ghost s0 = self@;
        let k = f.sequence_number;
        let present = self.contains_key(k);
        if !present && self.entries.len() >= MAX_BUFFER_SIZE {
            self.entries.remove(0);
            proof {
                lemma_drop_first(s0, k as int);
            }
        }
        let ghost s1 = self@;
        let p = self.lower_bound_index(k);
        proof {
            lemma_lower_bound(s1, k as int);
            lemma_has_key(s1, k as int);
            lemma_insert_frame(s1, f);
            lemma_insert_bounded(s0, f);
        }
        if p < self.entries.len() && self.entries[p].sequence_number == k {
            self.entries.remove(p);
            self.entries.insert(p, f);
            proof {
                assert(self@ =~= s1.update(p as int, f));
            }
        } else {
            self.entries.insert(p, f);
        }
    }

    /// The buffered sequence numbers, ascending.
    pub fn sequences(&self) -> (r: Vec<u64>)
        ensures
            r@ == keys_of(self@),
    {
        let mut out: Vec<u64> = Vec::new();
        let mut i: usize = 0;
        while i < self.entries.len()
            invariant
                0 <= i <= self@.len(),
                out@ == keys_of(self@.subrange(0, i as int)),
            decreases self@.len() - i,
        {
            out.push(self.entries[i].sequence_number);
            i = i + 1;
            proof {
                assert(out@ =~= keys_of(self@.subrange(0, i as int)));
            }
        }
        proof {
            assert(self@.subrange(0, i as int) =~= self@);
        }
        out
    }
}

} // verus!
