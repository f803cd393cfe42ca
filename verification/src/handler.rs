use vstd::prelude::*;

use crate::actor::Actor;
use crate::index::Index;

verus! {

/// An actor together with its current state and the store its state is
/// saved to, ready to take part in a composition of handlers that share one
/// log.
pub struct ActorHandler<A: Actor, SS> {
    actor: A,
    state: A::State,
    state_store: SS,
}

impl<A: Actor, SS> ActorHandler<A, SS> {
    /// The actor.
    pub closed spec fn spec_actor(&self) -> A {
        self.actor
    }

    /// The actor's current state.
    pub closed spec fn spec_state(&self) -> A::State {
        self.state
    }

    /// The store the state is saved to.
    pub closed spec fn spec_state_store(&self) -> SS {
        self.state_store
    }

    /// A handler whose actor starts from the state's default value.
    pub fn new(actor: A, state_store: SS) -> (r: Self)
        ensures
            r.spec_actor() == actor,
            r.spec_state_store() == state_store,
            call_ensures(A::State::default, (), r.spec_state()),
    {
        ActorHandler { actor, state: A::State::default(), state_store }
    }

    /// The actor's current state.
    pub fn state(&self) -> (r: &A::State)
        ensures
            *r == self.spec_state(),
    {
        &self.state
    }

    /// The store the state is saved to.
    pub fn state_store(&self) -> (r: &SS)
        ensures
            *r == self.spec_state_store(),
    {
        &self.state_store
    }

    /// Takes what the state store loaded: where a state was saved, it
    /// becomes the actor's state and its position is returned; otherwise the
    /// state stays and `None` is returned.
    pub fn restore(&mut self, loaded: Option<(A::State, Index)>) -> (r: Option<Index>)
        ensures
            final(self).spec_actor() == old(self).spec_actor(),
            final(self).spec_state_store() == old(self).spec_state_store(),
            match loaded {
                Some((s, i)) => final(self).spec_state() == s && r == Some(i),
                None => final(self).spec_state() == old(self).spec_state() && r is None,
            },
    {
        match loaded {
            Some((s, i)) => {
                self.state = s;
                Some(i)
            },
            None => None,
        }
    }

    /// Hands `event` to the actor where there is one (the log's event was one
    /// of the actor's events), keeping the state it returns and returning its
    /// outputs; where there is none, nothing changes and there are no
    /// outputs.
    pub fn handle_if(&mut self, event: Option<A::Event>) -> (r: Option<A::Outputs>)
        ensures
            final(self).spec_actor() == old(self).spec_actor(),
            final(self).spec_state_store() == old(self).spec_state_store(),
            match event {
                Some(e) => r matches Some(o) && call_ensures(
                    A::handle,
                    (&old(self).spec_actor(), e, old(self).spec_state()),
                    (o, final(self).spec_state()),
                ),
                None => r is None && final(self).spec_state() == old(self).spec_state(),
            },
    {
        match event {
            Some(e) => Some(self.handle(e)),
            None => None,
        }
    }

    /// Hands `event` to the actor with the current state, keeps the state it
    /// returns and returns its outputs.
    pub fn handle(&mut self, event: A::Event) -> (r: A::Outputs)
        ensures
            final(self).spec_actor() == old(self).spec_actor(),
            final(self).spec_state_store() == old(self).spec_state_store(),
            call_ensures(A::handle, (&old(self).spec_actor(), event, old(self).spec_state()), (r, final(self).spec_state())),
    {
        let mut state = A::State::default();
        std::mem::swap(&mut state, &mut self.state);
        let (outputs, new_state) = self.actor.handle(event, state);
        self.state = new_state;
        outputs
    }
}

/// The position from which a composition of handlers resumes, given the
/// positions its handlers restored, in order: `None` as soon as one of them
/// restored nothing (or there are none), else the earliest of them.
pub fn resume_point(points: &Vec<Option<Index>>) -> (r: Option<Index>)
    ensures
        r is None <==> (points@.len() == 0 || exists|k: int| 0 <= k < points@.len() && points@[k] is None),
        r matches Some(m) ==> {
            &&& exists|k: int| 0 <= k < points@.len() && points@[k] == Some(m)
            &&& forall|k: int| 0 <= k < points@.len() ==> m.pos() <= (#[trigger] points@[k])->0.pos()
        },
{
    let mut min: Option<Index> = None;
    let ghost mut wit: int = 0;
    let mut k: usize = 0;
    while k < points.len()
        invariant
            0 <= k <= points@.len(),
            forall|j: int| 0 <= j < k ==> points@[j] is Some,
            k == 0 <==> min is None,
            min matches Some(m) ==> {
                &&& 0 <= wit < k
                &&& points@[wit] == Some(m)
                &&& forall|j: int| 0 <= j < k ==> m.pos() <= (#[trigger] points@[j])->0.pos()
            },
        decreases points@.len() - k,
    {
        match points[k] {
            Some(idx) => {
                let next = match min {
                    Some(m) => m.earlier(idx),
                    None => idx,
                };
                proof {
                    if next.pos() == idx.pos() {
                        Index::lemma_pos_injective(next, idx);
                        wit = k as int;
                    } else {
                        Index::lemma_pos_injective(next, min->0);
                    }
                }
                min = Some(next);
            },
            None => {
                return None;
            },
        }
        k = k + 1;
    }
    proof {
        if min is Some {
            assert(points@[wit] == min);
        }
    }
    min
}

/// The views of the parts, in order.
pub open spec fn part_views<E>(parts: Seq<Vec<E>>) -> Seq<Seq<E>> {
    Seq::new(parts.len(), |k: int| parts[k]@)
}

/// The outputs of the handlers of a composition, one part per handler in
/// order, joined into one sequence in that order.
pub fn concat_outputs<E>(parts: Vec<Vec<E>>) -> (r: Vec<E>)
    ensures
        r@ == part_views(parts@).flatten(),
{
    let ghost all = part_views(parts@).flatten();
    let mut rest = parts;
    let mut out: Vec<E> = Vec::new();
    while rest.len() > 0
        invariant
            out@ + part_views(rest@).flatten() == all,
        decreases rest@.len(),
    {
        let ghost before = rest@;
        let mut part = rest.remove(0);
        proof {
            assert(part_views(rest@) =~= part_views(before).drop_first());
            assert(part_views(before).first() == part@);
            assert(out@ + part@ + part_views(rest@).flatten() =~= out@ + (part@ + part_views(rest@).flatten()));
        }
        out.append(&mut part);
    }
    proof {
        assert(part_views(rest@).flatten() =~= Seq::<E>::empty());
        assert(out@ + Seq::<E>::empty() =~= out@);
    }
    out
}

/// Joining the parts keeps every part whole and in order: no parts give
/// nothing, and one more part adds its outputs at the end.
pub proof fn lemma_concat_in_order<E>(parts: Seq<Vec<E>>, last: Vec<E>)
    ensures
        part_views(Seq::<Vec<E>>::empty()).flatten() == Seq::<E>::empty(),
        part_views(parts.push(last)).flatten() == part_views(parts).flatten() + last@,
        part_views(parts).len() == parts.len(),
        forall|k: int| 0 <= k < parts.len() ==> #[trigger] part_views(parts)[k] == parts[k]@,
{
    assert(part_views(Seq::<Vec<E>>::empty()) =~= Seq::<Seq<E>>::empty());
    assert(part_views(parts.push(last)) =~= part_views(parts).push(last@));
    part_views(parts).lemma_flatten_push(last@);
}

} // verus!
