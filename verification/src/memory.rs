//! Conversation memory: following a branch of the conversation back to its
//! root, one stored exchange at a time.

use vstd::prelude::*;

verus! {

/// A stored exchange as read back: question, answer and the id of the
/// exchange it continues, if any.
pub struct StoredExchange {
    pub question: String,
    pub answer: String,
    pub parent: Option<i64>,
}

/// The abstract store: exchange ids to (question, answer, parent).
pub type StoreView = Map<i64, (Seq<char>, Seq<char>, Option<i64>)>;

/// The exchanges met when following parents from `start` through `store`,
/// newest first, at most `steps` of them; the walk stops at an exchange
/// without parent or at an id the store does not hold.
pub open spec fn chain(store: StoreView, start: Option<i64>, steps: nat) -> Seq<(Seq<char>, Seq<char>)>
    decreases steps,
{
    if steps == 0 {
        seq![]
    } else {
        match start {
            None => seq![],
            Some(id) => if store.contains_key(id) {
                let e = store[id];
                seq![(e.0, e.1)] + chain(store, e.2, (steps - 1) as nat)
            } else {
                seq![]
            },
        }
    }
}

/// The state of a walk from a branch tip back towards the root.
pub struct LineageWalk {
    found: Vec<(String, String)>,
    current: Option<i64>,
    remaining: usize,
}

pub open spec fn pair_views(v: Seq<(String, String)>) -> Seq<(Seq<char>, Seq<char>)> {
    v.map_values(|p: (String, String)| (p.0@, p.1@))
}

impl LineageWalk {
    /// The exchanges collected so far, newest first.
    pub closed spec fn collected(&self) -> Seq<(Seq<char>, Seq<char>)> {
        pair_views(self.found@)
    }

    /// The next exchange id to read, if the walk goes on.
    pub closed spec fn cursor(&self) -> Option<i64> {
        self.current
    }

    /// How many more exchanges the walk may read.
    pub closed spec fn budget(&self) -> nat {
        self.remaining as nat
    }

    /// Everything the walk still owes plus what it collected equals the
    /// chain from the tip: the invariant that ties the walk to `store`.
    pub open spec fn tracks(&self, store: StoreView, tail: i64, limit: nat) -> bool {
        self.collected() + chain(store, self.cursor(), self.budget()) == chain(store, Some(tail), limit)
    }

    /// Starts a walk at exchange `tail_id`, reading at most `limit` exchanges.
    pub fn start(tail_id: i64, limit: usize) -> (w: Self)
        ensures
            w.collected() == Seq::<(Seq<char>, Seq<char>)>::empty(),
            w.cursor() == Some(tail_id),
            w.budget() == limit,
    {
        let w = LineageWalk { found: Vec::new(), current: Some(tail_id), remaining: limit };
        assert(pair_views(w.found@) =~= Seq::<(Seq<char>, Seq<char>)>::empty());
        w
    }

    /// The id to read next, or `None` when the walk is over.
    pub fn next_id(&self) -> (r: Option<i64>)
        ensures
            r == (if self.budget() > 0 { self.cursor() } else { None }),
    {
        if self.remaining > 0 { self.current } else { None }
    }

    /// Feeds the walk the exchange read for [`next_id`](Self::next_id), or
    /// `None` when the store did not hold it (which ends the walk).
    pub fn on_row(&mut self, row: Option<StoredExchange>)
        requires
            old(self).budget() > 0,
            old(self).cursor() is Some,
        ensures
            match row {
                Some(r) => {
                    &&& final(self).collected() == old(self).collected().push((r.question@, r.answer@))
                    &&& final(self).cursor() == r.parent
                    &&& final(self).budget() == old(self).budget() - 1
                },
                None => {
                    &&& final(self).collected() == old(self).collected()
                    &&& final(self).cursor() is None
                },
            },
    {
        match row {
            Some(r) => {
                self.found.push((r.question, r.answer));
                self.current = r.parent;
                self.remaining = self.remaining - 1;
                assert(pair_views(self.found@) =~= pair_views(old(self).found@).push((r.question@, r.answer@)));
            },
            None => {
                self.current = None;
            },
        }
    }

    /// The collected exchanges in chronological order (oldest first).
    pub fn finish(self) -> (v: Vec<(String, String)>)
        ensures
            pair_views(v@) == self.collected().reverse(),
    {
        let mut v: Vec<(String, String)> = Vec::new();
        let mut found = self.found;
        let ghost all = pair_views(found@);
        assert(pair_views(v@) =~= all.reverse().take(0));
        while found.len() > 0
            invariant
                all.len() == pair_views(found@).len() + pair_views(v@).len(),
                pair_views(found@) == all.take(pair_views(found@).len() as int),
                pair_views(v@) == all.reverse().take(pair_views(v@).len() as int),
            decreases found.len(),
        {
            let ghost n = found@.len();
            let ghost before = found@;
            let x = found.pop().unwrap();
            v.push(x);
            proof {
                assert(before == found@.push(x));
                assert(pair_views(before)[n - 1] == (x.0@, x.1@));
                assert(all.take(n as int)[n - 1] == all[n - 1]);
                assert(all[n - 1] == (x.0@, x.1@));
                assert(pair_views(found@) =~= all.take(n - 1));
                let m = pair_views(v@).len();
                assert(all.reverse()[m - 1] == all[all.len() - m]);
                assert(pair_views(v@) =~= all.reverse().take(m as int));
            }
        }
        assert(all.reverse().take(all.len() as int) =~= all.reverse());
        v
    }
}

/// One step of a walk keeps it in step with the store: when the row handed
/// to [`LineageWalk::on_row`] is what the store holds for the requested id,
/// the walk still tracks the chain from the tip.
pub proof fn step_preserves_tracking(
    store: StoreView,
    tail: i64,
    limit: nat,
    before: LineageWalk,
    after: LineageWalk,
    row: Option<(Seq<char>, Seq<char>, Option<i64>)>,
)
    requires
        before.tracks(store, tail, limit),
        before.budget() > 0,
        before.cursor() is Some,
        row == (if store.contains_key(before.cursor()->0) { Some(store[before.cursor()->0]) } else { None }),
        match row {
            Some(r) => after.collected() == before.collected().push((r.0, r.1))
                && after.cursor() == r.2 && after.budget() == before.budget() - 1,
            None => after.collected() == before.collected() && after.cursor() is None,
        },
    ensures
        after.tracks(store, tail, limit),
{
    let id = before.cursor()->0;
    match row {
        Some(r) => {
            assert(chain(store, Some(id), before.budget()) == seq![(r.0, r.1)] + chain(store, r.2, after.budget()));
            assert(before.collected() + (seq![(r.0, r.1)] + chain(store, r.2, after.budget()))
                =~= before.collected().push((r.0, r.1)) + chain(store, r.2, after.budget()));
        },
        None => {
            assert(chain(store, Some(id), before.budget()) =~= Seq::<(Seq<char>, Seq<char>)>::empty());
            assert(chain(store, None, after.budget()) =~= Seq::<(Seq<char>, Seq<char>)>::empty());
            assert(before.collected() + Seq::<(Seq<char>, Seq<char>)>::empty() =~= before.collected());
        },
    }
}

/// A walk that has stopped has collected the whole chain from the tip.
pub proof fn finished_walk_is_chain(store: StoreView, tail: i64, limit: nat, w: LineageWalk)
    requires
        w.tracks(store, tail, limit),
        w.budget() == 0 || w.cursor() is None,
    ensures
        w.collected() == chain(store, Some(tail), limit),
{
    assert(chain(store, w.cursor(), w.budget()) =~= Seq::<(Seq<char>, Seq<char>)>::empty());
    assert(w.collected() + Seq::<(Seq<char>, Seq<char>)>::empty() =~= w.collected());
}

/// A fresh walk tracks the chain.
pub proof fn start_tracks(store: StoreView, tail: i64, limit: nat, w: LineageWalk)
    requires
        w.collected() == Seq::<(Seq<char>, Seq<char>)>::empty(),
        w.cursor() == Some(tail),
        w.budget() == limit,
    ensures
        w.tracks(store, tail, limit),
{
    assert(Seq::<(Seq<char>, Seq<char>)>::empty() + chain(store, Some(tail), limit) =~= chain(store, Some(tail), limit));
}

/// A lineage never holds more exchanges than the limit.
pub proof fn chain_within_limit(store: StoreView, start: Option<i64>, steps: nat)
    ensures
        chain(store, start, steps).len() <= steps,
    decreases steps,
{
    if steps > 0 {
        match start {
            Some(id) => if store.contains_key(id) {
                chain_within_limit(store, store[id].2, (steps - 1) as nat);
            },
            None => {},
        }
    }
}

} // verus!
