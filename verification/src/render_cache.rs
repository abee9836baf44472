//! One-time render tokens: decoded bytes are held under an opaque random
//! token until the interface takes them, within a hard byte limit.
use std::collections::HashMap;

use rand::TryRngCore;
use vstd::prelude::*;

use crate::code;
use crate::error::ViewerError;

verus! {

broadcast use vstd::std_specs::hash::group_hash_axioms;

/// The largest integer a JavaScript number represents exactly: 2^53 - 1.
pub const MAX_SAFE_RENDER_ID: u64 = 9_007_199_254_740_991;

/// The message of the error reported when no random token can be drawn.
pub const TOKEN_SOURCE_MESSAGE: &'static str = "無法取得轉譯權杖所需的隨機數。";

/// `OsRng::try_next_u64` (rand): a random `u64` from the operating system,
/// or `None` where the operating system's source fails. Nothing is claimed
/// about the value, nor about when the source fails.
#[verifier::external_body]
pub(crate) fn random_u64() -> Option<u64> {
    rand::rngs::OsRng.try_next_u64().ok()
}

/// Adds the length of the render under `k` to a running total.
pub open spec fn add_len(m: Map<u64, Seq<u8>>) -> spec_fn(nat, u64) -> nat {
    |acc: nat, k: u64| acc + m[k].len()
}

/// The bytes held by a set of renders.
pub open spec fn held_bytes(m: Map<u64, Seq<u8>>) -> nat {
    m.dom().fold(0nat, add_len(m))
}

proof fn lemma_add_len_commutative(m: Map<u64, Seq<u8>>)
    ensures
        vstd::set::fold::is_fun_commutative(add_len(m)),
{
}

/// Summing over the same keys gives the same total when the lengths agree.
proof fn lemma_fold_congruent(s: Set<u64>, m1: Map<u64, Seq<u8>>, m2: Map<u64, Seq<u8>>)
    requires
        s.finite(),
        forall|k: u64| #[trigger] s.contains(k) ==> m1[k].len() == m2[k].len(),
    ensures
        s.fold(0nat, add_len(m1)) == s.fold(0nat, add_len(m2)),
    decreases s.len(),
{
    lemma_add_len_commutative(m1);
    lemma_add_len_commutative(m2);
    if s.len() == 0 {
        assert(s =~= Set::<u64>::empty());
        vstd::set::fold::lemma_fold_empty(0nat, add_len(m1));
        vstd::set::fold::lemma_fold_empty(0nat, add_len(m2));
    } else {
        let a = s.choose();
        let r = s.remove(a);
        lemma_fold_congruent(r, m1, m2);
        assert(r.insert(a) =~= s);
        vstd::set::fold::lemma_fold_insert(r, 0nat, add_len(m1), a);
        vstd::set::fold::lemma_fold_insert(r, 0nat, add_len(m2), a);
    }
}

/// No renders hold no bytes.
pub proof fn lemma_held_bytes_empty()
    ensures
        held_bytes(Map::<u64, Seq<u8>>::empty()) == 0,
{
    assert(Map::<u64, Seq<u8>>::empty().dom() =~= Set::<u64>::empty());
    vstd::set::fold::lemma_fold_empty(0nat, add_len(Map::<u64, Seq<u8>>::empty()));
}

/// A new render adds its length.
pub proof fn lemma_held_bytes_insert(m: Map<u64, Seq<u8>>, t: u64, b: Seq<u8>)
    requires
        m.dom().finite(),
        !m.contains_key(t),
    ensures
        held_bytes(m.insert(t, b)) == held_bytes(m) + b.len(),
{
    let m2 = m.insert(t, b);
    lemma_add_len_commutative(m2);
    assert(m2.dom() =~= m.dom().insert(t));
    vstd::set::fold::lemma_fold_insert(m.dom(), 0nat, add_len(m2), t);
    lemma_fold_congruent(m.dom(), m2, m);
}

/// A removed render takes its length with it.
pub proof fn lemma_held_bytes_remove(m: Map<u64, Seq<u8>>, t: u64)
    requires
        m.dom().finite(),
        m.contains_key(t),
    ensures
        held_bytes(m.remove(t)) + m[t].len() == held_bytes(m),
{
    let m2 = m.remove(t);
    let r = m.dom().remove(t);
    lemma_add_len_commutative(m);
    assert(m2.dom() =~= r);
    assert(r.insert(t) =~= m.dom());
    vstd::set::fold::lemma_fold_insert(r, 0nat, add_len(m), t);
    lemma_fold_congruent(r, m2, m);
}

#[derive(Debug)]
pub struct RenderCache {
    entries: HashMap<u64, Vec<u8>>,
    used: u64,
    limit: u64,
}

/// The position of `t` on the cycle 1, 2, ..., MAX_SAFE_RENDER_ID, 1, ...
/// counted from `start`.
pub open spec fn cycle_offset(start: u64, t: u64) -> int {
    if t >= start {
        t - start
    } else {
        t + MAX_SAFE_RENDER_ID - start
    }
}

/// Where the search for a free token starts for a random draw: the draw
/// masked to 53 bits, with 0 moved to 1.
pub open spec fn draw_start(raw: u64) -> u64 {
    if raw & MAX_SAFE_RENDER_ID == 0 {
        1
    } else {
        raw & MAX_SAFE_RENDER_ID
    }
}

/// `t` is the token a draw of `raw` gives among the renders `entries`: in
/// range, free, and the first free one at or after `draw_start(raw)` going
/// round the cycle.
pub open spec fn token_for_draw(entries: Map<u64, Seq<u8>>, raw: u64, t: u64) -> bool {
    &&& 1 <= t <= MAX_SAFE_RENDER_ID
    &&& !entries.contains_key(t)
    &&& forall|u: u64|
        1 <= u <= MAX_SAFE_RENDER_ID && cycle_offset(draw_start(raw), u) < cycle_offset(draw_start(raw), t)
            ==> #[trigger] entries.contains_key(u)
}

spec fn cycle_next(c: u64) -> u64 {
    if c >= MAX_SAFE_RENDER_ID {
        1
    } else {
        (c + 1) as u64
    }
}

impl RenderCache {
    /// The unread renders, by token.
    pub closed spec fn spec_entries(&self) -> Map<u64, Seq<u8>> {
        Map::new(|k: u64| self.entries@.contains_key(k), |k: u64| self.entries@[k]@)
    }

    /// The bytes accounted to unread renders.
    pub closed spec fn spec_used(&self) -> u64 {
        self.used
    }

    pub closed spec fn spec_limit(&self) -> u64 {
        self.limit
    }

    /// Tokens are non-zero JavaScript-safe integers, and the accounted bytes
    /// stay within the limit.
    pub open spec fn wf(&self) -> bool {
        &&& self.spec_used() <= self.spec_limit()
        &&& forall|k: u64| #[trigger] self.spec_entries().contains_key(k) ==> 1 <= k <= MAX_SAFE_RENDER_ID
        &&& self.spec_entries().dom().finite()
        &&& self.spec_used() == held_bytes(self.spec_entries())
    }

    pub fn new(limit: u64) -> (c: Self)
        ensures
            c.wf(),
            c.spec_entries() == Map::<u64, Seq<u8>>::empty(),
            c.spec_used() == 0,
            c.spec_limit() == limit,
    {
        let c = RenderCache { entries: HashMap::new(), used: 0, limit };
        assert(c.spec_entries() =~= Map::<u64, Seq<u8>>::empty());
        proof {
            lemma_held_bytes_empty();
        }
        c
    }

    /// Drops every unread render and its accounting.
    pub fn clear(&mut self)
        ensures
            final(self).wf(),
            final(self).spec_entries() == Map::<u64, Seq<u8>>::empty(),
            final(self).spec_used() == 0,
            final(self).spec_limit() == old(self).spec_limit(),
    {
        self.entries.clear();
        self.used = 0;
        assert(self.spec_entries() =~= Map::<u64, Seq<u8>>::empty());
        proof {
            lemma_held_bytes_empty();
        }
    }

    /// The number of unread renders.
    pub fn len(&self) -> (n: usize)
        ensures
            n == self.spec_entries().len(),
    {
        assert(self.spec_entries().dom() =~= self.entries@.dom());
        self.entries.len()
    }

    pub fn is_empty(&self) -> (b: bool)
        ensures
            b == (self.spec_entries().len() == 0),
    {
        self.len() == 0
    }

    pub fn used(&self) -> (u: u64)
        ensures
            u == self.spec_used(),
    {
        self.used
    }

    pub fn limit(&self) -> (u: u64)
        ensures
            u == self.spec_limit(),
    {
        self.limit
    }

    /// The token for a random draw: the first token not in use at or after
    /// `draw_start(raw)`, going round 1, 2, ..., MAX_SAFE_RENDER_ID, 1, ...
    pub fn token_from_draw(&self, raw: u64) -> (t: u64)
        requires
            self.wf(),
            self.spec_entries().len() + 1 < MAX_SAFE_RENDER_ID,
        ensures
            token_for_draw(self.spec_entries(), raw, t),
    {
        let drawn = raw & MAX_SAFE_RENDER_ID;
        assert(drawn <= MAX_SAFE_RENDER_ID) by (bit_vector)
            requires
                drawn == raw & 9_007_199_254_740_991u64,
        ;
        let start = if drawn == 0 {
            1
        } else {
            drawn
        };
        assert(start == draw_start(raw));
        let count: u64 = self.len() as u64;
        let mut candidate = start;
        let mut attempts: u64 = 0;
        let ghost mut tried: Set<u64> = Set::empty();
        while attempts <= count
            invariant
                self.wf(),
                count == self.spec_entries().len(),
                count + 1 < MAX_SAFE_RENDER_ID,
                1 <= start <= MAX_SAFE_RENDER_ID,
                start == draw_start(raw),
                1 <= candidate <= MAX_SAFE_RENDER_ID,
                attempts <= count + 1,
                cycle_offset(start, candidate) == attempts,
                tried.finite(),
                tried.len() == attempts,
                tried.subset_of(self.spec_entries().dom()),
                forall|t: u64| #[trigger] tried.contains(t) ==> 1 <= t <= MAX_SAFE_RENDER_ID && cycle_offset(start, t) < attempts,
                forall|u: u64|
                    1 <= u <= MAX_SAFE_RENDER_ID && cycle_offset(start, u) < attempts ==> #[trigger] self.spec_entries().contains_key(u),
            decreases count + 1 - attempts,
        {
            if !self.entries.contains_key(&candidate) {
                return candidate;
            }
            proof {
                assert(!tried.contains(candidate));
                tried = tried.insert(candidate);
                assert forall|u: u64|
                    1 <= u <= MAX_SAFE_RENDER_ID && cycle_offset(start, u) < attempts + 1 implies #[trigger] self.spec_entries().contains_key(u) by {
                    if cycle_offset(start, u) == attempts {
                        assert(u == candidate);
                    }
                }
            }
            candidate = if candidate >= MAX_SAFE_RENDER_ID {
                1
            } else {
                candidate + 1
            };
            attempts = attempts + 1;
        }
        proof {
            vstd::set_lib::lemma_len_subset(tried, self.spec_entries().dom());
            assert(false);
        }
        candidate
    }

    /// Whether `size` more bytes stay within the limit.
    fn fits(&self, size: u64) -> (b: bool)
        requires
            self.wf(),
        ensures
            b == (self.spec_used() + size <= self.spec_limit()),
    {
        size <= self.limit && self.used <= self.limit - size
    }

    /// Stores a render under the token that the random draw `draw` gives,
    /// or refuses it: over the byte limit, or without a draw.
    pub fn insert_drawn(&mut self, bytes: Vec<u8>, draw: Option<u64>) -> (r: Result<u64, ViewerError>)
        requires
            old(self).wf(),
            old(self).spec_entries().len() + 1 < MAX_SAFE_RENDER_ID,
        ensures
            final(self).wf(),
            final(self).spec_limit() == old(self).spec_limit(),
            if old(self).spec_used() + bytes@.len() > old(self).spec_limit() {
                &&& r matches Err(e)
                &&& e.code@ == code::CACHE_LIMIT_EXCEEDED@
                &&& e.message@ == "轉譯快取超過 512 MiB 上限。"@
                &&& e.parameters_view() == map!["maxBytes"@ => old(self).spec_limit()]
                &&& final(self).spec_entries() == old(self).spec_entries()
                &&& final(self).spec_used() == old(self).spec_used()
            } else {
                match draw {
                    None => {
                        &&& r matches Err(e)
                        &&& e.code@ == code::IO_ERROR@
                        &&& e.message@ == TOKEN_SOURCE_MESSAGE@
                        &&& e.parameters_view() == Map::<Seq<char>, u64>::empty()
                        &&& final(self).spec_entries() == old(self).spec_entries()
                        &&& final(self).spec_used() == old(self).spec_used()
                    },
                    Some(raw) => {
                        &&& r matches Ok(token)
                        &&& token_for_draw(old(self).spec_entries(), raw, token)
                        &&& final(self).spec_entries() == old(self).spec_entries().insert(token, bytes@)
                        &&& final(self).spec_used() == old(self).spec_used() + bytes@.len()
                    },
                }
            },
    {
        if bytes.len() as u64 > self.limit || !self.fits(bytes.len() as u64) {
            return Err(
                ViewerError::limit(code::CACHE_LIMIT_EXCEEDED, "轉譯快取超過 512 MiB 上限。").with_parameter(
                    "maxBytes",
                    self.limit,
                ),
            );
        }
        let size = bytes.len() as u64;
        let render_id = match draw {
            Some(raw) => self.token_from_draw(raw),
            None => return Err(ViewerError::io(TOKEN_SOURCE_MESSAGE)),
        };
        let ghost before = self.spec_entries();
        proof {
            lemma_held_bytes_insert(before, render_id, bytes@);
        }
        self.used = self.used + size;
        self.entries.insert(render_id, bytes);
        assert(self.spec_entries() =~= before.insert(render_id, bytes@));
        Ok(render_id)
    }

    /// Stores a render under the token of a fresh random draw, or refuses it
    /// when it would exceed the byte limit or when no draw can be had.
    pub fn insert(&mut self, bytes: Vec<u8>) -> (r: Result<u64, ViewerError>)
        requires
            old(self).wf(),
            old(self).spec_entries().len() + 1 < MAX_SAFE_RENDER_ID,
        ensures
            final(self).wf(),
            final(self).spec_limit() == old(self).spec_limit(),
            match r {
                Ok(token) => {
                    &&& old(self).spec_used() + bytes@.len() <= old(self).spec_limit()
                    &&& 1 <= token <= MAX_SAFE_RENDER_ID
                    &&& !old(self).spec_entries().contains_key(token)
                    &&& final(self).spec_entries() == old(self).spec_entries().insert(token, bytes@)
                    &&& final(self).spec_used() == old(self).spec_used() + bytes@.len()
                },
                Err(e) => {
                    &&& final(self).spec_entries() == old(self).spec_entries()
                    &&& final(self).spec_used() == old(self).spec_used()
                    &&& if old(self).spec_used() + bytes@.len() > old(self).spec_limit() {
                        &&& e.code@ == code::CACHE_LIMIT_EXCEEDED@
                        &&& e.message@ == "轉譯快取超過 512 MiB 上限。"@
                        &&& e.parameters_view() == map!["maxBytes"@ => old(self).spec_limit()]
                    } else {
                        &&& e.code@ == code::IO_ERROR@
                        &&& e.message@ == TOKEN_SOURCE_MESSAGE@
                        &&& e.parameters_view() == Map::<Seq<char>, u64>::empty()
                    }
                },
            },
    {
        let draw = if bytes.len() as u64 <= self.limit && self.fits(bytes.len() as u64) {
            random_u64()
        } else {
            None
        };
        self.insert_drawn(bytes, draw)
    }

    /// Hands out the render of a token once; the token is then gone.
    pub fn take(&mut self, render_id: u64) -> (r: Option<Vec<u8>>)
        requires
            old(self).wf(),
        ensures
            final(self).wf(),
            final(self).spec_limit() == old(self).spec_limit(),
            match r {
                Some(bytes) => {
                    &&& old(self).spec_entries().contains_key(render_id)
                    &&& bytes@ == old(self).spec_entries()[render_id]
                    &&& final(self).spec_entries() == old(self).spec_entries().remove(render_id)
                    &&& final(self).spec_used() == old(self).spec_used() - bytes@.len()
                },
                None => {
                    &&& !old(self).spec_entries().contains_key(render_id)
                    &&& final(self).spec_entries() == old(self).spec_entries()
                    &&& final(self).spec_used() == old(self).spec_used()
                },
            },
    {
        let ghost before = self.spec_entries();
        match self.entries.remove(&render_id) {
            Some(bytes) => {
                proof {
                    lemma_held_bytes_remove(before, render_id);
                }
                let size = bytes.len() as u64;
                self.used = if self.used >= size {
                    self.used - size
                } else {
                    0
                };
                assert(self.spec_entries() =~= before.remove(render_id));
                Some(bytes)
            },
            None => {
                assert(self.spec_entries() =~= before);
                None
            },
        }
    }
}

/// A token is handed out at most once: after a render was taken, taking the
/// same token again finds nothing.
pub proof fn lemma_tokens_are_one_time(entries: Map<u64, Seq<u8>>, render_id: u64)
    requires
        entries.contains_key(render_id),
    ensures
        !entries.remove(render_id).contains_key(render_id),
{
}

} // verus!
