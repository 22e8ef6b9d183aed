//! The simulation engine: it owns the live entity collection and runs the
//! spawn, step and reap-and-respawn operations of one tick.
use vstd::prelude::*;
use crate::Bounds;
use crate::factory;
use crate::meteor::Meteor;
use crate::surface::{Surface, BLANK_GLYPH, METEOR_GLYPH};

verus! {

/// Some entity among the first `n` of `s` covers the cell `(r, c)`.
pub open spec fn covered_below(s: Seq<Meteor>, n: int, r: int, c: int) -> bool {
    exists|i: int| 0 <= i < n && (#[trigger] s[i]).covers(r, c)
}

/// Some entity of `s` covers the cell `(r, c)`.
pub open spec fn covered(s: Seq<Meteor>, r: int, c: int) -> bool {
    covered_below(s, s.len() as int, r, c)
}

/// Every entity of `s` is far enough from the `i32` limits to move and be
/// painted.
pub open spec fn all_steppable(s: Seq<Meteor>) -> bool {
    forall|i: int| 0 <= i < s.len() ==> (#[trigger] s[i]).steppable()
}

/// `post` is `pre` with exactly one fresh entity appended, and the fresh
/// entity lies inside the playfield.
pub open spec fn spawned(pre: Seq<Meteor>, post: Seq<Meteor>, b: Bounds) -> bool {
    &&& post.len() == pre.len() + 1
    &&& post.drop_last() == pre
    &&& post.last().in_bounds(b)
}

/// Every entity of `post` is the matching entity of `pre` advanced by
/// exactly its own movement vector; nothing is added or removed, and no
/// entity's shape or path changes.
pub open spec fn stepped(pre: Seq<Meteor>, post: Seq<Meteor>) -> bool {
    &&& post.len() == pre.len()
    &&& forall|i: int| 0 <= i < pre.len() ==> (#[trigger] post[i]).stepped_from(pre[i])
}

/// The entities of `pre` that are not at a sentinel position, in their
/// original order.
pub open spec fn survivors(pre: Seq<Meteor>, b: Bounds) -> Seq<Meteor>
    decreases pre.len(),
{
    if pre.len() == 0 {
        Seq::empty()
    } else if !pre.first().at_sentinel(b) {
        seq![pre.first()] + survivors(pre.drop_first(), b)
    } else {
        survivors(pre.drop_first(), b)
    }
}

/// `post` holds `pre`'s survivors in their original order, followed by one
/// fresh in-playfield replacement per reaped entity: the count is
/// unchanged and no entity is left at a sentinel position.
pub open spec fn reaped(pre: Seq<Meteor>, post: Seq<Meteor>, b: Bounds) -> bool {
    &&& post.len() == pre.len()
    &&& survivors(pre, b).len() <= post.len()
    &&& post.take(survivors(pre, b).len() as int) == survivors(pre, b)
    &&& forall|i: int|
        survivors(pre, b).len() <= i < post.len() ==> (#[trigger] post[i]).in_bounds(b)
    &&& forall|i: int| 0 <= i < post.len() ==> !(#[trigger] post[i]).at_sentinel(b)
    &&& forall|i: int|
        0 <= i < post.len() ==> (#[trigger] post[i]).in_bounds(b) || pre.contains(post[i])
}

/// `post` is `pre` fitted to the playfield `b`: the count is unchanged,
/// every entity of `post` lies inside `b`, and every entity of `pre` that
/// already lay inside `b` keeps its slot untouched.
pub open spec fn confined(pre: Seq<Meteor>, post: Seq<Meteor>, b: Bounds) -> bool {
    &&& post.len() == pre.len()
    &&& forall|i: int| 0 <= i < post.len() ==> (#[trigger] post[i]).in_bounds(b)
    &&& forall|i: int| 0 <= i < post.len() && (#[trigger] pre[i]).in_bounds(b) ==> post[i] == pre[i]
}

/// The simulation engine: the ordered collection of live entities.
pub struct Engine {
    pub meteors: Vec<Meteor>,
}

impl Engine {
    /// An engine with no live entities.
    pub fn new() -> (e: Engine)
        ensures
            e.meteors@ == Seq::<Meteor>::empty(),
    {
        Engine { meteors: Vec::new() }
    }

    /// How many entities are live.
    pub fn count(&self) -> (n: usize)
        ensures
            n == self.meteors@.len(),
    {
        self.meteors.len()
    }

    /// Append one given entity; everything already live is untouched.
    pub fn add(&mut self, m: Meteor)
        ensures
            final(self).meteors@ == old(self).meteors@.push(m),
    {
        self.meteors.push(m);
    }

    /// Append one fresh entity from the factory: random shape, random
    /// direction, random position inside the playfield.
    pub fn spawn_one(&mut self, bounds: Bounds)
        requires
            bounds.wf(),
        ensures
            spawned(old(self).meteors@, final(self).meteors@, bounds),
    {
        let m = factory::create(bounds);
        self.meteors.push(m);
        proof {
            assert(self.meteors@.drop_last() =~= old(self).meteors@);
        }
    }

    /// One motion tick: erase every entity's glyphs at its current
    /// position, advance every entity by its movement vector, then draw
    /// every entity at its new position — in that order, so no glyph is
    /// drawn at a stale position or erased after the move. No entity is
    /// removed here, even one that moved out of the playfield.
    pub fn step(&mut self, surface: &mut Surface)
        requires
            old(surface).wf(),
            all_steppable(old(self).meteors@),
        ensures
            final(surface).wf(),
            final(surface).height == old(surface).height,
            final(surface).width == old(surface).width,
            stepped(old(self).meteors@, final(self).meteors@),
            forall|r: int, c: int|
                old(surface).contains(r, c) ==> final(surface).at(r, c) == (
                if covered(final(self).meteors@, r, c) {
                    METEOR_GLYPH
                } else if covered(old(self).meteors@, r, c) {
                    BLANK_GLYPH
                } else {
                    old(surface).at(r, c)
                }),
    {
        let ghost pre = self.meteors@;
        let ghost s0 = *surface;

        let mut i: usize = 0;
        while i < self.meteors.len()
            invariant
                self.meteors@ == pre,
                all_steppable(pre),
                0 <= i <= pre.len(),
                surface.wf(),
                surface.height == s0.height,
                surface.width == s0.width,
                forall|r: int, c: int|
                    s0.contains(r, c) ==> surface.at(r, c) == (
                    if covered_below(pre, i as int, r, c) {
                        BLANK_GLYPH
                    } else {
                        s0.at(r, c)
                    }),
            decreases pre.len() - i,
        {
            let m = self.meteors[i];
            m.erase(surface);
            proof {
                assert forall|r: int, c: int| s0.contains(r, c) implies surface.at(r, c) == (
                    if covered_below(pre, i + 1, r, c) {
                        BLANK_GLYPH
                    } else {
                        s0.at(r, c)
                    }) by {
                    if pre[i as int].covers(r, c) {
                        assert(covered_below(pre, i + 1, r, c));
                    } else if covered_below(pre, i as int, r, c) {
                        let w = choose|w: int|
                            0 <= w < i && (#[trigger] pre[w]).covers(r, c);
                        assert(covered_below(pre, i + 1, r, c));
                    } else {
                        assert(!covered_below(pre, i + 1, r, c));
                    }
                }
            }
            i = i + 1;
        }

        let ghost s1 = *surface;

        let mut j: usize = 0;
        while j < self.meteors.len()
            invariant
                self.meteors@.len() == pre.len(),
                all_steppable(pre),
                0 <= j <= pre.len(),
                forall|t: int| 0 <= t < j ==> (#[trigger] self.meteors@[t]).stepped_from(pre[t]),
                forall|t: int| j <= t < pre.len() ==> self.meteors@[t] == pre[t],
                *surface == s1,
            decreases pre.len() - j,
        {
            let mut m = self.meteors[j];
            proof {
                assert(m == pre[j as int]);
                assert(pre[j as int].steppable());
            }
            m.update();
            self.meteors[j] = m;
            j = j + 1;
        }

        let ghost post = self.meteors@;

        let mut k: usize = 0;
        while k < self.meteors.len()
            invariant
                self.meteors@ == post,
                stepped(pre, post),
                all_steppable(pre),
                0 <= k <= post.len(),
                surface.wf(),
                surface.height == s1.height,
                surface.width == s1.width,
                forall|r: int, c: int|
                    s1.contains(r, c) ==> surface.at(r, c) == (
                    if covered_below(post, k as int, r, c) {
                        METEOR_GLYPH
                    } else {
                        s1.at(r, c)
                    }),
            decreases post.len() - k,
        {
            let m = self.meteors[k];
            m.draw(surface);
            proof {
                assert forall|r: int, c: int| s1.contains(r, c) implies surface.at(r, c) == (
                    if covered_below(post, k + 1, r, c) {
                        METEOR_GLYPH
                    } else {
                        s1.at(r, c)
                    }) by {
                    if post[k as int].covers(r, c) {
                        assert(covered_below(post, k + 1, r, c));
                    } else if covered_below(post, k as int, r, c) {
                        let w = choose|w: int|
                            0 <= w < k && (#[trigger] post[w]).covers(r, c);
                        assert(covered_below(post, k + 1, r, c));
                    } else {
                        assert(!covered_below(post, k + 1, r, c));
                    }
                }
            }
            k = k + 1;
        }

        proof {
            assert forall|r: int, c: int| s0.contains(r, c) implies surface.at(r, c) == (
                if covered(post, r, c) {
                    METEOR_GLYPH
                } else if covered(pre, r, c) {
                    BLANK_GLYPH
                } else {
                    s0.at(r, c)
                }) by {
                assert(covered(post, r, c) == covered_below(post, post.len() as int, r, c));
                assert(covered(pre, r, c) == covered_below(pre, pre.len() as int, r, c));
                assert(s1.contains(r, c));
            }
        }
    }

    /// Fit the collection to a playfield whose bounds have changed: every
    /// entity left outside the new playfield is replaced in its slot by a
    /// fresh entity inside it, and every entity inside keeps its place.
    pub fn confine(&mut self, bounds: Bounds)
        requires
            bounds.wf(),
        ensures
            confined(old(self).meteors@, final(self).meteors@, bounds),
    {
        let ghost pre = self.meteors@;
        let mut i: usize = 0;
        while i < self.meteors.len()
            invariant
                bounds.wf(),
                self.meteors@.len() == pre.len(),
                0 <= i <= pre.len(),
                forall|t: int|
                    0 <= t < i ==> (#[trigger] self.meteors@[t]).in_bounds(bounds),
                forall|t: int|
                    0 <= t < i && pre[t].in_bounds(bounds) ==> self.meteors@[t] == pre[t],
                forall|t: int| i <= t < pre.len() ==> self.meteors@[t] == pre[t],
            decreases pre.len() - i,
        {
            let m = self.meteors[i];
            if !m.inside(bounds) {
                let fresh = factory::create(bounds);
                self.meteors[i] = fresh;
            }
            i = i + 1;
        }
    }

    /// One reaping pass: every entity at a sentinel position — row `-1` or
    /// `height`, or column `-1` or `width` — is removed, and one fresh
    /// entity is created per removal, so the population count is
    /// invariant. Replacements are not rendered until the next step, so
    /// they are invisible to collision checks for one tick.
    pub fn reap_and_respawn(&mut self, bounds: Bounds)
        requires
            bounds.wf(),
        ensures
            reaped(old(self).meteors@, final(self).meteors@, bounds),
    {
        let ghost pre = self.meteors@;

        let mut kept: Vec<Meteor> = Vec::new();
        let mut removed: usize = 0;
        let mut i: usize = 0;
        while i < self.meteors.len()
            invariant
                self.meteors@ == pre,
                0 <= i <= pre.len(),
                kept@ == survivors(pre.take(i as int), bounds),
                kept@.len() + removed == i,
                forall|t: int| 0 <= t < kept@.len() ==> pre.contains(#[trigger] kept@[t]),
                forall|t: int|
                    0 <= t < kept@.len() ==> !(#[trigger] kept@[t]).at_sentinel(bounds),
            decreases pre.len() - i,
        {
            let m = self.meteors[i];
            if !m.out_of_bounds(bounds) {
                kept.push(m);
            } else {
                removed = removed + 1;
            }
            i = i + 1;
            proof {
                lemma_survivors_take_step(pre, i as int, bounds);
                assert(pre.contains(pre[i - 1]));
            }
        }
        proof {
            assert(pre.take(pre.len() as int) =~= pre);
        }

        let ghost base = kept@;
        let mut j: usize = 0;
        while j < removed
            invariant
                bounds.wf(),
                0 <= j <= removed,
                kept@.len() == base.len() + j,
                kept@.take(base.len() as int) == base,
                forall|t: int|
                    base.len() <= t < kept@.len() ==> (#[trigger] kept@[t]).in_bounds(bounds),
                forall|t: int| 0 <= t < base.len() ==> kept@[t] == base[t],
            decreases removed - j,
        {
            let fresh = factory::create(bounds);
            kept.push(fresh);
            j = j + 1;
            proof {
                assert(kept@.take(base.len() as int) =~= base);
            }
        }

        self.meteors = kept;
        proof {
            assert forall|t: int| 0 <= t < self.meteors@.len() implies !(
            #[trigger] self.meteors@[t]).at_sentinel(bounds) by {
                if t < base.len() {
                    assert(self.meteors@[t] == base[t]);
                } else {
                    assert(self.meteors@[t].in_bounds(bounds));
                }
            }
            assert forall|t: int| 0 <= t < self.meteors@.len() implies (
            #[trigger] self.meteors@[t]).in_bounds(bounds) || pre.contains(self.meteors@[t]) by {
                if t < base.len() {
                    assert(self.meteors@[t] == base[t]);
                    assert(pre.contains(base[t]));
                }
            }
        }
    }
}

/// In one take-prefix step of a scan, the survivor sequence either gains
/// the newly scanned entity at its end or stays as it was, depending on
/// whether that entity sits at a sentinel position.
proof fn lemma_survivors_take_step(s: Seq<Meteor>, i: int, b: Bounds)
    requires
        0 < i <= s.len(),
    ensures
        survivors(s.take(i), b) == (if !s[i - 1].at_sentinel(b) {
            survivors(s.take(i - 1), b).push(s[i - 1])
        } else {
            survivors(s.take(i - 1), b)
        }),
    decreases i,
{
    let t = s.take(i);
    if i == 1 {
        assert(t.drop_first() =~= Seq::<Meteor>::empty());
        assert(s.take(0int) =~= Seq::<Meteor>::empty());
        if !s[0].at_sentinel(b) {
            assert(survivors(t, b) =~= survivors(s.take(0int), b).push(s[0]));
        }
    } else {
        let s1 = s.drop_first();
        assert(t.drop_first() =~= s1.take(i - 1));
        assert(s.take(i - 1).drop_first() =~= s1.take(i - 2));
        lemma_survivors_take_step(s1, i - 1, b);
        assert(s1.take(i - 1)[i - 2] == s[i - 1]);
        if !s[i - 1].at_sentinel(b) {
            assert(survivors(t, b) =~= survivors(s.take(i - 1), b).push(s[i - 1]));
        } else {
            assert(survivors(t, b) =~= survivors(s.take(i - 1), b));
        }
    }
}

/// When no entity of `s` sits at a sentinel position, reaping keeps all of
/// them: the survivor sequence is `s` itself.
pub proof fn lemma_survivors_all_kept(s: Seq<Meteor>, b: Bounds)
    requires
        forall|i: int| 0 <= i < s.len() ==> !(#[trigger] s[i]).at_sentinel(b),
    ensures
        survivors(s, b) == s,
    decreases s.len(),
{
    if s.len() == 0 {
        assert(survivors(s, b) =~= s);
    } else {
        lemma_survivors_all_kept(s.drop_first(), b);
        assert(survivors(s, b) =~= seq![s.first()] + s.drop_first());
        assert(seq![s.first()] + s.drop_first() =~= s);
    }
}

/// Reaping twice with no step in between is a no-op the second time: the
/// first pass leaves no entity at a sentinel position, so the second pass
/// removes nothing, replaces nothing, and returns the collection unchanged.
pub proof fn lemma_reap_idempotent(pre: Seq<Meteor>, mid: Seq<Meteor>, post: Seq<Meteor>, b: Bounds)
    requires
        reaped(pre, mid, b),
        reaped(mid, post, b),
    ensures
        post == mid,
{
    lemma_survivors_all_kept(mid, b);
    assert(post =~= post.take(mid.len() as int));
}

/// Across one full `spawn_one` → `step` → `reap_and_respawn` cycle the
/// population grows by exactly the one entity the spawn added: stepping
/// moves entities without adding or removing any, and reaping replaces
/// every removal one for one.
pub proof fn lemma_cycle_adds_exactly_one(
    before: Seq<Meteor>,
    after_spawn: Seq<Meteor>,
    after_step: Seq<Meteor>,
    after_reap: Seq<Meteor>,
    b: Bounds,
)
    requires
        spawned(before, after_spawn, b),
        stepped(after_spawn, after_step),
        reaped(after_step, after_reap, b),
    ensures
        after_reap.len() == before.len() + 1,
{
}

/// However many steps run, an entity's movement vector never changes, and
/// each step displaces the entity by exactly that vector: along any chain
/// of states joined by consecutive steps, every entity of the `t`-th state
/// stands exactly `t` of its own vectors away from where it began.
#[verifier::rlimit(50)]
pub proof fn lemma_steps_displace_linearly(chain: Seq<Seq<Meteor>>)
    requires
        1 <= chain.len(),
        forall|t: int| 0 <= t < chain.len() - 1 ==> stepped(#[trigger] chain[t], chain[t + 1]),
    ensures
        forall|t: int| 0 <= t < chain.len() ==> (#[trigger] chain[t]).len() == chain[0].len(),
        forall|t: int, i: int|
            0 <= t < chain.len() && 0 <= i < chain[0].len() ==> (#[trigger] chain[t][i]).path
                == chain[0][i].path && chain[t][i].y == chain[0][i].y + t * chain[0][i].path.dy()
                && chain[t][i].x == chain[0][i].x + t * chain[0][i].path.dx(),
    decreases chain.len(),
{
    if chain.len() > 1 {
        let head = chain.drop_last();
        assert forall|t: int| 0 <= t < head.len() - 1 implies stepped(
            #[trigger] head[t],
            head[t + 1],
        ) by {
            assert(head[t] == chain[t]);
            assert(head[t + 1] == chain[t + 1]);
            assert(stepped(chain[t], chain[t + 1]));
        }
        lemma_steps_displace_linearly(head);
        let last = chain.len() - 1;
        assert forall|t: int| 0 <= t < chain.len() implies (#[trigger] chain[t]).len()
            == chain[0].len() by {
            assert(head[0] == chain[0]);
            if t < last {
                assert(head[t] == chain[t]);
                assert(head[t].len() == head[0].len());
            } else {
                assert(head[last - 1] == chain[last - 1]);
                assert(head[last - 1].len() == head[0].len());
                assert(stepped(chain[last - 1], chain[last]));
            }
        }
        assert forall|t: int, i: int|
            0 <= t < chain.len() && 0 <= i < chain[0].len() implies (#[trigger] chain[t][i]).path
            == chain[0][i].path && chain[t][i].y == chain[0][i].y + t * chain[0][i].path.dy()
            && chain[t][i].x == chain[0][i].x + t * chain[0][i].path.dx() by {
            assert(head[0] == chain[0]);
            let dy = chain[0][i].path.dy();
            let dx = chain[0][i].path.dx();
            if t < last {
                assert(head[t] == chain[t]);
                assert(0 <= t < head.len() && 0 <= i < head[0].len());
                assert(head[t][i].path == head[0][i].path && head[t][i].y == head[0][i].y + t
                    * head[0][i].path.dy() && head[t][i].x == head[0][i].x + t
                    * head[0][i].path.dx());
            } else {
                assert(head[last - 1] == chain[last - 1]);
                assert(head[last - 1][i].path == head[0][i].path && head[last - 1][i].y
                    == head[0][i].y + (last - 1) * dy && head[last - 1][i].x == head[0][i].x + (
                last - 1) * dx);
                assert(stepped(chain[last - 1], chain[last]));
                assert(i < chain[last - 1].len());
                assert(chain[last][i].stepped_from(chain[last - 1][i]));
                assert((last - 1) * dy + dy == last * dy) by (nonlinear_arith);
                assert((last - 1) * dx + dx == last * dx) by (nonlinear_arith);
            }
        }
    }
}

} // verus!
