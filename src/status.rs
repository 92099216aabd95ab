//! Status variables: each has a current state and a set of allowed states.
use vstd::prelude::*;
use crate::item::ItemId;

verus! {

/// One status: its current state and the states it may take. An empty
/// allowed list places no constraint on the state.
#[derive(Clone, Debug, PartialEq, Eq)]
pub struct Status {
    pub status_id: ItemId,
    pub current: ItemId,
    pub allowed: Vec<ItemId>,
}

/// A status as the contracts see it: (identifier, current state, allowed states).
pub type StatusModel = (ItemId, ItemId, Seq<ItemId>);

impl View for Status {
    type V = StatusModel;

    open spec fn view(&self) -> StatusModel {
        (self.status_id, self.current, self.allowed@)
    }
}

/// Why a change of state was refused.
#[derive(Clone, Copy, Debug, PartialEq, Eq, Structural)]
pub enum StatusError {
    /// No status has the given identifier.
    UnknownStatus,
    /// The state is not among the allowed states of the status.
    InvalidTransition,
}

/// Whether `state` is a state that a status with these allowed states may take.
pub open spec fn admits(allowed: Seq<ItemId>, state: ItemId) -> bool {
    allowed.len() == 0 || allowed.contains(state)
}

/// Whether every status is in one of its allowed states.
pub open spec fn all_admitted(v: Seq<StatusModel>) -> bool {
    forall|i: int| 0 <= i < v.len() ==> admits((#[trigger] v[i]).2, v[i].1)
}

/// The last entry of `list` for `id` whose state is allowed, if any.
pub open spec fn last_valid(list: Seq<StatusModel>, id: ItemId) -> Option<StatusModel>
    decreases list.len(),
{
    if list.len() == 0 {
        None
    } else if list.last().0 == id && admits(list.last().2, list.last().1) {
        Some(list.last())
    } else {
        last_valid(list.drop_last(), id)
    }
}

/// Whether `state` is among `allowed`, or `allowed` is empty.
pub fn allows(allowed: &Vec<ItemId>, state: ItemId) -> (r: bool)
    ensures
        r == admits(allowed@, state),
{
    let mut found = allowed.len() == 0;
    let mut k: usize = 0;
    while k < allowed.len() && !found
        invariant
            0 <= k <= allowed@.len(),
            found == (allowed@.len() == 0 || exists|j: int| 0 <= j < k && allowed@[j] == state),
        decreases allowed@.len() - k,
    {
        if allowed[k] == state {
            found = true;
        }
        k = k + 1;
    }
    proof {
        if found {
            if allowed@.len() != 0 {
                let j = choose|j: int| 0 <= j < k && allowed@[j] == state;
                assert(allowed@.contains(state));
            }
        } else {
            assert(!allowed@.contains(state));
        }
    }
    found
}

/// Whether entry `i` is the status `id`.
pub open spec fn is_entry(v: Seq<StatusModel>, id: ItemId, i: int) -> bool {
    0 <= i < v.len() && v[i].0 == id
}

pub open spec fn has_status(v: Seq<StatusModel>, id: ItemId) -> bool {
    exists|i: int| #[trigger] is_entry(v, id, i)
}

/// No two entries share an identifier.
pub open spec fn unique_ids(v: Seq<StatusModel>) -> bool {
    forall|i: int, j: int| 0 <= i < v.len() && 0 <= j < v.len() && v[i].0 == v[j].0 ==> i == j
}

/// The table after status `id` moves to `state`, or `None` where the move is
/// refused.
pub open spec fn transition(v: Seq<StatusModel>, id: ItemId, state: ItemId) -> Option<Seq<StatusModel>> {
    if exists|i: int| #[trigger] is_entry(v, id, i) && admits(v[i].2, state) {
        let i = choose|i: int| #[trigger] is_entry(v, id, i) && admits(v[i].2, state);
        Some(v.update(i, (id, state, v[i].2)))
    } else {
        None
    }
}

/// The table of every status.
pub struct StatusMap {
    statuses: Vec<Status>,
}

impl View for StatusMap {
    type V = Seq<StatusModel>;

    closed spec fn view(&self) -> Seq<StatusModel> {
        self.statuses@.map_values(|s: Status| s@)
    }
}

impl StatusMap {
    pub open spec fn wf(&self) -> bool {
        unique_ids(self@) && all_admitted(self@)
    }

    pub fn new() -> (r: StatusMap)
        ensures
            r.wf(),
            r@ == Seq::<StatusModel>::empty(),
    {
        StatusMap { statuses: Vec::new() }
    }

    /// Builds the table from a list of statuses; a later entry for an
    /// identifier replaces an earlier one, and an entry whose current state is
    /// not among its allowed states is left out.
    pub fn from_list(list: Vec<Status>) -> (r: StatusMap)
        ensures
            r.wf(),
            forall|id: ItemId| has_status(r@, id) <==> last_valid(list@.map_values(|s: Status| s@), id) is Some,
            forall|id: ItemId, i: int| #[trigger] is_entry(r@, id, i) ==> last_valid(list@.map_values(|s: Status| s@), id) == Some(r@[i]),
    {
        let mut map = StatusMap::new();
        let mut rest = list;
        let ghost whole = rest@.map_values(|s: Status| s@);
        let mut i: usize = 0;
        let n = rest.len();
        while rest.len() > 0
            invariant
                map.wf(),
                n == whole.len(),
                rest@.len() + i == n,
                rest@.map_values(|s: Status| s@) == whole.skip(i as int),
                forall|id: ItemId| has_status(map@, id) <==> last_valid(whole.take(i as int), id) is Some,
                forall|id: ItemId, j: int| #[trigger] is_entry(map@, id, j) ==> last_valid(whole.take(i as int), id) == Some(map@[j]),
            decreases rest@.len(),
        {
            let ghost r0 = rest@;
            let ghost i0 = i as int;
            let s = rest.remove(0);
            assert(s@ == whole[i as int]) by {
                assert(r0.map_values(|s: Status| s@)[0] == whole.skip(i as int)[0]);
            }
            let ghost before = map@;
            let ghost sv = s@;
            let valid = allows(&s.allowed, s.current);
            if valid {
                map.insert(s);
            }
            i = i + 1;
            let ghost rv = rest@.map_values(|s: Status| s@);
            let ghost ws = whole.skip(i as int);
            assert(rv =~= ws) by {
                assert forall|k: int| 0 <= k < rv.len() implies #[trigger] rv[k] == ws[k] by {
                    assert(rest@[k] == r0[k + 1]);
                    assert(r0.map_values(|s: Status| s@)[k + 1] == whole.skip(i0)[k + 1]);
                }
            }
            assert(whole.take(i as int).drop_last() =~= whole.take(i - 1));
            assert(whole.take(i as int).last() == sv);
            assert forall|id: ItemId| has_status(map@, id) <==> last_valid(whole.take(i as int), id) is Some by {
                if id != sv.0 || !valid {
                    if has_status(map@, id) {
                        let j = choose|j: int| #[trigger] is_entry(map@, id, j);
                        if valid {
                            assert(has_status(before, id));
                        } else {
                            assert(is_entry(before, id, j));
                        }
                    }
                    if has_status(before, id) && valid {
                        assert(has_status(map@, id));
                    }
                }
            }
            assert forall|id: ItemId, j: int| #[trigger] is_entry(map@, id, j) implies last_valid(whole.take(i as int), id) == Some(map@[j]) by {
                if valid && id != sv.0 {
                    assert(is_entry(before, id, j));
                } else if !valid {
                    assert(is_entry(before, id, j));
                }
            }
        }
        assert(whole.take(n as int) =~= whole);
        map
    }

    /// Finds the entry of `id`.
    fn position(&self, id: ItemId) -> (r: Option<usize>)
        requires
            self.wf(),
        ensures
            r is None <==> !has_status(self@, id),
            r matches Some(i) ==> is_entry(self@, id, i as int),
    {
        let mut i: usize = 0;
        while i < self.statuses.len()
            invariant
                0 <= i <= self.statuses@.len(),
                self@.len() == self.statuses@.len(),
                forall|j: int| 0 <= j < i ==> !(#[trigger] is_entry(self@, id, j)),
            decreases self.statuses@.len() - i,
        {
            if self.statuses[i].status_id == id {
                assert(self@[i as int] == self.statuses@[i as int]@);
                assert(is_entry(self@, id, i as int));
                return Some(i);
            }
            assert(self@[i as int] == self.statuses@[i as int]@);
            i = i + 1;
        }
        None
    }

    /// Adds a status, or replaces the one with the same identifier.
    pub fn insert(&mut self, status: Status)
        requires
            old(self).wf(),
            admits(status.allowed@, status.current),
        ensures
            final(self).wf(),
            has_status(final(self)@, status.status_id),
            forall|i: int| #[trigger] is_entry(final(self)@, status.status_id, i) ==> final(self)@[i] == status@,
            forall|id: ItemId| id != status.status_id ==> (has_status(final(self)@, id) <==> has_status(old(self)@, id)),
            forall|id: ItemId, i: int| id != status.status_id && #[trigger] is_entry(old(self)@, id, i) ==> exists|j: int| #[trigger] is_entry(final(self)@, id, j) && final(self)@[j] == old(self)@[i],
            forall|id: ItemId, j: int| id != status.status_id && #[trigger] is_entry(final(self)@, id, j) ==> is_entry(old(self)@, id, j) && old(self)@[j] == final(self)@[j],
    {
        let ghost v = self@;
        match self.position(status.status_id) {
            Some(i) => {
                let ghost sv = status@;
                self.statuses.set(i, status);
                proof {
                    assert(self@ =~= v.update(i as int, sv));
                    assert forall|id: ItemId, k: int| id != sv.0 && #[trigger] is_entry(v, id, k) implies exists|j: int| #[trigger] is_entry(self@, id, j) && self@[j] == v[k] by {
                        assert(is_entry(self@, id, k));
                    }
                    assert forall|id: ItemId| id != sv.0 implies (has_status(self@, id) <==> has_status(v, id)) by {
                        if has_status(v, id) {
                            let k = choose|k: int| #[trigger] is_entry(v, id, k);
                            assert(is_entry(self@, id, k));
                        }
                        if has_status(self@, id) {
                            let k = choose|k: int| #[trigger] is_entry(self@, id, k);
                            assert(is_entry(v, id, k));
                        }
                    }
                    assert(is_entry(self@, sv.0, i as int));
                    assert forall|p: int, q: int| 0 <= p < self@.len() && 0 <= q < self@.len() && self@[p].0 == self@[q].0 implies p == q by {
                        assert(v[p].0 == self@[p].0 && v[q].0 == self@[q].0);
                    }
                }
            },
            None => {
                let ghost sv = status@;
                self.statuses.push(status);
                proof {
                    assert(self@ =~= v.push(sv));
                    assert forall|id: ItemId, k: int| id != sv.0 && #[trigger] is_entry(v, id, k) implies exists|j: int| #[trigger] is_entry(self@, id, j) && self@[j] == v[k] by {
                        assert(is_entry(self@, id, k));
                    }
                    assert forall|id: ItemId| id != sv.0 implies (has_status(self@, id) <==> has_status(v, id)) by {
                        if has_status(v, id) {
                            let k = choose|k: int| #[trigger] is_entry(v, id, k);
                            assert(is_entry(self@, id, k));
                        }
                        if has_status(self@, id) {
                            let k = choose|k: int| #[trigger] is_entry(self@, id, k);
                            assert(is_entry(v, id, k));
                        }
                    }
                    assert(is_entry(self@, sv.0, v.len() as int));
                    assert forall|p: int, q: int| 0 <= p < self@.len() && 0 <= q < self@.len() && self@[p].0 == self@[q].0 implies p == q by {
                        if p < v.len() && q < v.len() {
                            assert(v[p].0 == self@[p].0 && v[q].0 == self@[q].0);
                        } else if p < v.len() {
                            assert(is_entry(v, sv.0, p));
                        } else if q < v.len() {
                            assert(is_entry(v, sv.0, q));
                        }
                    }
                }
            },
        }
    }

    /// The current state of status `id`.
    pub fn get_state(&self, id: ItemId) -> (r: Option<ItemId>)
        requires
            self.wf(),
        ensures
            r is None <==> !has_status(self@, id),
            forall|i: int| #[trigger] is_entry(self@, id, i) ==> r == Some(self@[i].1),
    {
        match self.position(id) {
            Some(i) => {
                assert(self@[i as int] == self.statuses@[i as int]@);
                Some(self.statuses[i].current)
            },
            None => None,
        }
    }

    /// The allowed states of status `id`.
    pub fn allowed_states(&self, id: ItemId) -> (r: Option<Vec<ItemId>>)
        requires
            self.wf(),
        ensures
            r is None <==> !has_status(self@, id),
            forall|i: int| #[trigger] is_entry(self@, id, i) ==> (r matches Some(a) && a@ == self@[i].2),
    {
        match self.position(id) {
            Some(i) => {
                assert(self@[i as int] == self.statuses@[i as int]@);
                let a = &self.statuses[i].allowed;
                let mut out: Vec<ItemId> = Vec::new();
                let mut k: usize = 0;
                while k < a.len()
                    invariant
                        0 <= k <= a@.len(),
                        out@ == a@.take(k as int),
                    decreases a@.len() - k,
                {
                    out.push(a[k]);
                    k = k + 1;
                    assert(out@ =~= a@.take(k as int));
                }
                assert(a@.take(k as int) =~= a@);
                Some(out)
            },
            None => None,
        }
    }

    /// Moves status `id` to `state`. A state outside a non-empty allowed list
    /// is refused and the table is left as it was.
    pub fn set_state(&mut self, id: ItemId, state: ItemId) -> (r: Result<ItemId, StatusError>)
        requires
            old(self).wf(),
        ensures
            final(self).wf(),
            r == Ok::<ItemId, StatusError>(state) <==> transition(old(self)@, id, state) is Some,
            r is Ok ==> r == Ok::<ItemId, StatusError>(state) && Some(final(self)@) == transition(old(self)@, id, state),
            r is Err ==> final(self)@ == old(self)@,
            r == Err::<ItemId, StatusError>(StatusError::UnknownStatus) <==> !has_status(old(self)@, id),
            r == Err::<ItemId, StatusError>(StatusError::InvalidTransition) <==> has_status(old(self)@, id) && transition(old(self)@, id, state) is None,
    {
        let ghost v = self@;
        match self.position(id) {
            None => Err(StatusError::UnknownStatus),
            Some(i) => {
                assert(v[i as int] == self.statuses@[i as int]@);
                let ok = allows(&self.statuses[i].allowed, state);
                if !ok {
                    assert(!(exists|j: int| #[trigger] is_entry(v, id, j) && admits(v[j].2, state)));
                    return Err(StatusError::InvalidTransition);
                }
                let mut entry = self.statuses.remove(i);
                entry.current = state;
                self.statuses.insert(i, entry);
                proof {
                    assert(is_entry(v, id, i as int) && admits(v[i as int].2, state));
                    let c = choose|j: int| #[trigger] is_entry(v, id, j) && admits(v[j].2, state);
                    assert(c == i);
                    assert(self@ =~= v.update(i as int, (id, state, v[i as int].2)));
                    assert forall|p: int, q: int| 0 <= p < self@.len() && 0 <= q < self@.len() && self@[p].0 == self@[q].0 implies p == q by {
                        assert(v[p].0 == self@[p].0 && v[q].0 == self@[q].0);
                    }
                }
                Ok(state)
            },
        }
    }

    /// A copy of every status, in table order.
    pub fn snapshot(&self) -> (r: Vec<Status>)
        ensures
            r@.map_values(|s: Status| s@) == self@,
    {
        let mut r: Vec<Status> = Vec::new();
        let mut i: usize = 0;
        while i < self.statuses.len()
            invariant
                0 <= i <= self.statuses@.len(),
                r@.map_values(|s: Status| s@) == self@.take(i as int),
            decreases self.statuses@.len() - i,
        {
            let s = &self.statuses[i];
            let allowed = crate::handler::copy_ids(&s.allowed);
            let ghost before = r@;
            r.push(Status { status_id: s.status_id, current: s.current, allowed });
            assert(self@[i as int] == self.statuses@[i as int]@);
            assert(r@.map_values(|s: Status| s@) =~= before.map_values(|s: Status| s@).push(self@[i as int]));
            i = i + 1;
            assert(r@.map_values(|s: Status| s@) =~= self@.take(i as int));
        }
        assert(self@.take(i as int) =~= self@);
        r
    }
}

/// Setting a status twice to the same allowed state leaves the table as the
/// first setting did and succeeds the second time.
pub proof fn lemma_set_state_idempotent(v: Seq<StatusModel>, id: ItemId, state: ItemId)
    requires
        unique_ids(v),
        transition(v, id, state) is Some,
    ensures
        unique_ids(transition(v, id, state)->Some_0),
        transition(transition(v, id, state)->Some_0, id, state) == transition(v, id, state),
{
    let i = choose|i: int| #[trigger] is_entry(v, id, i) && admits(v[i].2, state);
    let w = v.update(i, (id, state, v[i].2));
    assert(is_entry(w, id, i) && admits(w[i].2, state));
    let j = choose|j: int| #[trigger] is_entry(w, id, j) && admits(w[j].2, state);
    assert(v[j].0 == w[j].0);
    assert(w.update(j, (id, state, w[j].2)) =~= w);
    assert forall|p: int, q: int| 0 <= p < w.len() && 0 <= q < w.len() && w[p].0 == w[q].0 implies p == q by {
        assert(v[p].0 == w[p].0 && v[q].0 == w[q].0);
    }
}

/// A refused state leaves the status where it was.
pub proof fn lemma_refused_state_keeps_status(v: Seq<StatusModel>, id: ItemId, state: ItemId, i: int)
    requires
        unique_ids(v),
        is_entry(v, id, i),
        !admits(v[i].2, state),
    ensures
        transition(v, id, state) is None,
{
    if exists|j: int| #[trigger] is_entry(v, id, j) && admits(v[j].2, state) {
        let j = choose|j: int| #[trigger] is_entry(v, id, j) && admits(v[j].2, state);
        assert(i == j);
    }
}

} // verus!
