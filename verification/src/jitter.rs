//! The receive-side jitter buffer: audio frames held by sequence number and
//! played out in sequence order after a fixed delay.

use vstd::prelude::*;
use std::collections::BTreeMap;

verus! {

broadcast use vstd::std_specs::btree::group_btree_axioms;

/// Frames kept beyond the playout delay before the oldest is dropped.
pub const JITTER_SLACK: usize = 3;

/// Calls `BTreeMap::pop_first`, which removes and returns the entry with
/// the smallest key, or `None` when the map is empty.
#[verifier::external_body]
fn btree_pop_first(m: &mut BTreeMap<u64, Vec<u8>>) -> (r: Option<(u64, Vec<u8>)>)
    ensures
        match r {
            None => old(m)@.len() == 0 && final(m)@ == old(m)@,
            Some((k, v)) => {
                &&& old(m)@.contains_key(k)
                &&& old(m)@[k] == v
                &&& forall|j: u64| old(m)@.contains_key(j) ==> k <= j
                &&& final(m)@ == old(m)@.remove(k)
            },
        },
{
    m.pop_first()
}

/// Whether `k` is the smallest sequence number held in `m`.
pub open spec fn is_first_key(m: Map<u64, Seq<u8>>, k: u64) -> bool {
    m.contains_key(k) && forall|j: u64| #[trigger] m.contains_key(j) ==> k <= j
}

/// The smallest sequence number held in `m`.
pub open spec fn first_key(m: Map<u64, Seq<u8>>) -> u64 {
    choose|k: u64| is_first_key(m, k)
}

/// A finite, non-empty set of sequence numbers has a smallest one.
proof fn lemma_min_exists(s: Set<u64>)
    requires
        s.finite(),
        s.len() > 0,
    ensures
        exists|k: u64| s.contains(k) && forall|j: u64| #[trigger] s.contains(j) ==> k <= j,
    decreases s.len(),
{
    let x = s.choose();
    let t = s.remove(x);
    if t.len() == 0 {
        assert forall|j: u64| #[trigger] s.contains(j) implies x <= j by {
            if j != x {
                assert(t.contains(j));
            }
        }
    } else {
        lemma_min_exists(t);
        let m = choose|k: u64| t.contains(k) && forall|j: u64| #[trigger] t.contains(j) ==> k <= j;
        let k = if x <= m {
            x
        } else {
            m
        };
        assert forall|j: u64| #[trigger] s.contains(j) implies k <= j by {
            if j != x {
                assert(t.contains(j));
            }
        }
    }
}

/// A finite, non-empty map has a first key, and it is the only one.
pub proof fn lemma_first_key(m: Map<u64, Seq<u8>>)
    requires
        m.dom().finite(),
        m.len() > 0,
    ensures
        is_first_key(m, first_key(m)),
        forall|k: u64| is_first_key(m, k) ==> k == first_key(m),
{
    lemma_min_exists(m.dom());
    let w = choose|k: u64| m.dom().contains(k) && forall|j: u64| #[trigger] m.dom().contains(j) ==> k <= j;
    assert(is_first_key(m, w));
}

/// What one playout step makes of the held frames `m`, given the delay in
/// frames and whether the license is active: once `delay` frames are held,
/// the oldest is dropped while more than `delay + 3` are held, then the
/// oldest is taken out and played if the license is active; short of the
/// delay nothing is played, and without a license everything is dropped.
pub open spec fn playout_spec(m: Map<u64, Seq<u8>>, delay: nat, licensed: bool) -> (
    Map<u64, Seq<u8>>,
    Option<Seq<u8>>,
) {
    if m.len() >= delay {
        let m1 = if m.len() > delay + JITTER_SLACK {
            m.remove(first_key(m))
        } else {
            m
        };
        if m1.len() > 0 {
            (
                m1.remove(first_key(m1)),
                if licensed {
                    Some(m1[first_key(m1)])
                } else {
                    None
                },
            )
        } else {
            (m1, None)
        }
    } else if !licensed {
        (Map::empty(), None)
    } else {
        (m, None)
    }
}

/// The frames waiting to be played, by sequence number.
pub struct JitterBuffer {
    frames: BTreeMap<u64, Vec<u8>>,
}

impl View for JitterBuffer {
    type V = Map<u64, Seq<u8>>;

    closed spec fn view(&self) -> Map<u64, Seq<u8>> {
        self.frames@.map_values(|v: Vec<u8>| v@)
    }
}

impl JitterBuffer {
    /// The held frames form a finite map.
    pub proof fn lemma_finite(&self)
        ensures
            self@.dom().finite(),
    {
        assert(self@.dom() =~= self.frames@.dom());
    }

    /// An empty buffer.
    pub fn new() -> (r: Self)
        ensures
            r@ == Map::<u64, Seq<u8>>::empty(),
    {
        let r = JitterBuffer { frames: BTreeMap::new() };
        assert(r@ =~= Map::<u64, Seq<u8>>::empty());
        r
    }

    /// The number of frames held.
    pub fn len(&self) -> (r: usize)
        ensures
            r == self@.len(),
    {
        assert(self@.dom() =~= self.frames@.dom());
        self.frames.len()
    }

    /// Holds `data` under sequence number `seq`, replacing any frame held
    /// under it.
    pub fn insert(&mut self, seq: u64, data: Vec<u8>)
        ensures
            final(self)@ == old(self)@.insert(seq, data@),
    {
        let _ = self.frames.insert(seq, data);
        assert(final(self)@ =~= old(self)@.insert(seq, data@));
    }

    /// Drops every frame.
    pub fn clear(&mut self)
        ensures
            final(self)@ == Map::<u64, Seq<u8>>::empty(),
    {
        self.frames.clear();
        assert(final(self)@ =~= Map::<u64, Seq<u8>>::empty());
    }

    /// Takes out the frame with the smallest sequence number.
    pub fn pop_first(&mut self) -> (r: Option<(u64, Vec<u8>)>)
        ensures
            match r {
                None => old(self)@.len() == 0 && final(self)@ == old(self)@,
                Some((k, v)) => {
                    &&& k == first_key(old(self)@)
                    &&& is_first_key(old(self)@, k)
                    &&& old(self)@[k] == v@
                    &&& final(self)@ == old(self)@.remove(k)
                },
            },
    {
        let ghost m = self@;
        let r = btree_pop_first(&mut self.frames);
        proof {
            old(self).lemma_finite();
            match r {
                None => {
                    assert(m.dom() =~= old(self).frames@.dom());
                },
                Some((k, _)) => {
                    assert(is_first_key(m, k));
                    lemma_first_key(m);
                    assert(final(self)@ =~= m.remove(k));
                },
            }
        }
        r
    }

    /// One playout step with the given delay in frames: the frame to decode,
    /// if any; see `playout_spec`.
    pub fn playout(&mut self, delay: usize, licensed: bool) -> (r: Option<Vec<u8>>)
        requires
            delay <= usize::MAX - JITTER_SLACK,
        ensures
            ({
                let (m, out) = playout_spec(old(self)@, delay as nat, licensed);
                &&& final(self)@ == m
                &&& match r {
                    Some(v) => out == Some(v@),
                    None => out is None,
                }
            }),
    {
        let ghost m0 = self@;
        let n = self.len();
        if n >= delay {
            if n > delay + JITTER_SLACK {
                let _ = self.pop_first();
            }
            let ghost m1 = self@;
            assert(m1 == (if m0.len() > delay + JITTER_SLACK {
                m0.remove(first_key(m0))
            } else {
                m0
            }));
            proof {
                self.lemma_finite();
            }
            let p = self.pop_first();
            match p {
                Some((_, data)) => {
                    assert(m1.len() > 0);
                    assert(playout_spec(m0, delay as nat, licensed).0 == self@);
                    if licensed {
                        Some(data)
                    } else {
                        None
                    }
                },
                None => {
                    assert(playout_spec(m0, delay as nat, licensed) == (self@, None::<Seq<u8>>));
                    None
                },
            }
        } else {
            if !licensed {
                self.clear();
            }
            assert(playout_spec(m0, delay as nat, licensed) == (self@, None::<Seq<u8>>));
            None
        }
    }
}

/// Frames come out of the buffer in sequence order: the frame a playout
/// step plays has a smaller sequence number than every frame still held
/// after it.
pub proof fn lemma_playout_in_order(m: Map<u64, Seq<u8>>, delay: nat, licensed: bool)
    requires
        m.dom().finite(),
    ensures
        ({
            let (m2, out) = playout_spec(m, delay, licensed);
            out is Some ==> exists|k: u64|
                #![trigger m.contains_key(k)]
                m.contains_key(k) && out == Some(m[k]) && forall|j: u64|
                    #[trigger] m2.contains_key(j) ==> k < j
        }),
{
    let (m2, out) = playout_spec(m, delay, licensed);
    if m.len() >= delay {
        let m1 = if m.len() > delay + JITTER_SLACK {
            lemma_first_key(m);
            m.remove(first_key(m))
        } else {
            m
        };
        if m1.len() > 0 {
            lemma_first_key(m1);
            let k = first_key(m1);
            assert(m.contains_key(k));
            assert forall|j: u64| #[trigger] m2.contains_key(j) implies k < j by {
                assert(m1.contains_key(j));
            }
        }
    }
}

} // verus!
