use vstd::prelude::*;

verus! {

/// Shortest note a todo may hold, in characters.
pub const MIN_NOTE_LEN: usize = 2;

/// Longest note a todo may hold, in characters.
pub const MAX_NOTE_LEN: usize = 100;

/// Whether a note of `len` characters may be stored.
pub open spec fn note_len_ok(len: nat) -> bool {
    MIN_NOTE_LEN <= len <= MAX_NOTE_LEN
}

/// Why a store operation failed.
#[derive(Clone, Copy, Debug, PartialEq, Eq, Structural)]
pub enum StoreError {
    /// The note is shorter than 2 or longer than 100 characters.
    Validation,
    /// The position does not name an active todo of the owner.
    NotFound,
    /// The store cannot carry out the operation (its ids are used up).
    Unavailable,
}

/// One todo record. Records are kept in creation order, which stands for
/// their creation time.
#[derive(Debug)]
pub struct Todo {
    pub id: u64,
    pub owner_id: u64,
    pub note: String,
    pub completed: bool,
}

/// The mathematical value of a todo record.
pub struct TodoView {
    pub id: nat,
    pub owner_id: u64,
    pub note: Seq<char>,
    pub completed: bool,
}

impl View for Todo {
    type V = TodoView;

    open spec fn view(&self) -> TodoView {
        TodoView { id: self.id as nat, owner_id: self.owner_id, note: self.note@, completed: self.completed }
    }
}

/// The mathematical value of a store: its records in creation order and the
/// id that the next record will get.
pub struct StoreView {
    pub records: Seq<TodoView>,
    pub next_id: nat,
}

/// Whether record `t` is an active todo of `owner`.
pub open spec fn is_active_of(t: TodoView, owner: u64) -> bool {
    t.owner_id == owner && !t.completed
}

/// Positions in `recs` of the active todos of `owner`, oldest first.
pub open spec fn active_indices(recs: Seq<TodoView>, owner: u64) -> Seq<int>
    decreases recs.len(),
{
    if recs.len() == 0 {
        Seq::empty()
    } else {
        let prev = active_indices(recs.drop_last(), owner);
        if is_active_of(recs.last(), owner) {
            prev.push(recs.len() - 1)
        } else {
            prev
        }
    }
}

/// The notes of the active todos of `owner`, oldest first.
pub open spec fn active_notes(recs: Seq<TodoView>, owner: u64) -> Seq<Seq<char>> {
    let ix = active_indices(recs, owner);
    Seq::new(ix.len(), |x: int| recs[ix[x]].note)
}

impl StoreView {
    /// Ids grow strictly along the records and stay below `next_id`.
    pub open spec fn wf(self) -> bool {
        &&& forall|i: int, j: int|
            0 <= i < j < self.records.len() ==> #[trigger] self.records[i].id
                < #[trigger] self.records[j].id
        &&& forall|i: int| 0 <= i < self.records.len() ==> #[trigger] self.records[i].id < self.next_id
    }

    /// The store after a successful `add`.
    pub open spec fn added(self, owner: u64, note: Seq<char>) -> StoreView {
        StoreView {
            records: self.records.push(
                TodoView { id: self.next_id, owner_id: owner, note, completed: false },
            ),
            next_id: self.next_id + 1,
        }
    }

    /// The store after completing the `k`-th (1-based) active todo of `owner`.
    pub open spec fn completed_at(self, owner: u64, k: int) -> StoreView {
        let j = active_indices(self.records, owner)[k - 1];
        StoreView {
            records: self.records.update(j, TodoView { completed: true, ..self.records[j] }),
            next_id: self.next_id,
        }
    }

    /// The store after adding each of `notes` for `owner`, in order.
    pub open spec fn added_all(self, owner: u64, notes: Seq<Seq<char>>) -> StoreView
        decreases notes.len(),
    {
        if notes.len() == 0 {
            self
        } else {
            self.added_all(owner, notes.drop_last()).added(owner, notes.last())
        }
    }
}

/// The per-user todo store. Records are never deleted: completing one only
/// sets its flag.
pub struct TodoStore {
    pub records: Vec<Todo>,
    pub next_id: u64,
}

impl View for TodoStore {
    type V = StoreView;

    open spec fn view(&self) -> StoreView {
        StoreView {
            records: self.records@.map_values(|t: Todo| t@),
            next_id: self.next_id as nat,
        }
    }
}

/// Every listed position lies in range and names an active todo of the
/// owner; there are no more of them than records.
pub proof fn lemma_active_indices_bounds(recs: Seq<TodoView>, owner: u64)
    ensures
        forall|x: int|
            0 <= x < active_indices(recs, owner).len() ==> 0 <= #[trigger] active_indices(
                recs,
                owner,
            )[x] < recs.len() && is_active_of(recs[active_indices(recs, owner)[x]], owner),
        active_indices(recs, owner).len() <= recs.len(),
    decreases recs.len(),
{
    if recs.len() > 0 {
        lemma_active_indices_bounds(recs.drop_last(), owner);
    }
}

/// The active todos of a prefix of the records come first among those of
/// all the records.
pub proof fn lemma_active_indices_prefix(recs: Seq<TodoView>, owner: u64, i: int)
    requires
        0 <= i <= recs.len(),
    ensures
        active_indices(recs.subrange(0, i), owner).len() <= active_indices(recs, owner).len(),
        forall|x: int|
            0 <= x < active_indices(recs.subrange(0, i), owner).len() ==> #[trigger] active_indices(
                recs.subrange(0, i),
                owner,
            )[x] == active_indices(recs, owner)[x],
    decreases recs.len(),
{
    if i == recs.len() {
        assert(recs.subrange(0, i) =~= recs);
    } else {
        let d = recs.drop_last();
        assert(recs.subrange(0, i) =~= d.subrange(0, i));
        lemma_active_indices_prefix(d, owner, i);
    }
}

/// Completing one active todo removes exactly its position from the active
/// view of its owner, and leaves the views of other owners alone.
pub proof fn lemma_complete_indices(recs: Seq<TodoView>, owner: u64, m: int)
    requires
        0 <= m < active_indices(recs, owner).len(),
    ensures
        ({
            let j = active_indices(recs, owner)[m];
            let after = recs.update(j, TodoView { completed: true, ..recs[j] });
            &&& active_indices(after, owner) == active_indices(recs, owner).remove(m)
            &&& forall|o: u64| o != owner ==> active_indices(after, o) == active_indices(recs, o)
        }),
    decreases recs.len(),
{
    let j = active_indices(recs, owner)[m];
    let after = recs.update(j, TodoView { completed: true, ..recs[j] });
    let n = recs.len() - 1;
    let d = recs.drop_last();
    lemma_active_indices_bounds(recs, owner);
    lemma_active_indices_bounds(d, owner);
    let prev = active_indices(d, owner);
    if j == n {
        assert(after.drop_last() =~= d);
        assert(is_active_of(recs.last(), owner));
        assert(m == prev.len());
        assert(active_indices(after, owner) =~= active_indices(recs, owner).remove(m));
        assert forall|o: u64| o != owner implies active_indices(after, o) == active_indices(
            recs,
            o,
        ) by {
            assert(after.drop_last() =~= d);
        }
    } else {
        assert(j < n);
        assert(m < prev.len()) by {
            if m >= prev.len() {
                assert(m == prev.len());
                assert(active_indices(recs, owner) == prev.push(n));
            }
        }
        assert(prev[m] == j);
        lemma_complete_indices(d, owner, m);
        let after_d = d.update(j, TodoView { completed: true, ..d[j] });
        assert(after.drop_last() =~= after_d);
        assert(after.last() == recs.last());
        assert(active_indices(after, owner) =~= active_indices(recs, owner).remove(m));
        assert forall|o: u64| o != owner implies active_indices(after, o) == active_indices(
            recs,
            o,
        ) by {
            assert(after.drop_last() =~= after_d);
            assert(active_indices(after_d, o) == active_indices(d, o));
            assert(is_active_of(after.last(), o) == is_active_of(recs.last(), o));
        }
    }
}

/// Adding a todo for `owner` appends its note to the owner's active view and
/// leaves the views of other owners alone.
pub proof fn lemma_added_notes(s: StoreView, owner: u64, note: Seq<char>)
    ensures
        active_notes(s.added(owner, note).records, owner) == active_notes(s.records, owner).push(
            note,
        ),
        forall|o: u64|
            o != owner ==> active_notes(s.added(owner, note).records, o) == active_notes(
                s.records,
                o,
            ),
{
    let recs = s.added(owner, note).records;
    assert(recs.drop_last() =~= s.records);
    lemma_active_indices_bounds(s.records, owner);
    assert(active_notes(recs, owner) =~= active_notes(s.records, owner).push(note));
    assert forall|o: u64| o != owner implies active_notes(recs, o) == active_notes(s.records, o) by {
        assert(recs.drop_last() =~= s.records);
        lemma_active_indices_bounds(s.records, o);
        assert(active_notes(recs, o) =~= active_notes(s.records, o));
    }
}

/// Adding notes one after the other for the same owner lists them, after
/// the owner's earlier active notes, in exactly the order in which they
/// were added.
pub proof fn lemma_adds_keep_order(s: StoreView, owner: u64, notes: Seq<Seq<char>>)
    ensures
        active_notes(s.added_all(owner, notes).records, owner) == active_notes(s.records, owner)
            + notes,
    decreases notes.len(),
{
    if notes.len() == 0 {
        assert(active_notes(s.records, owner) + notes =~= active_notes(s.records, owner));
    } else {
        lemma_adds_keep_order(s, owner, notes.drop_last());
        lemma_added_notes(s.added_all(owner, notes.drop_last()), owner, notes.last());
        assert(active_notes(s.records, owner) + notes =~= (active_notes(s.records, owner)
            + notes.drop_last()).push(notes.last()));
    }
}

/// Completing the `k`-th active todo of `owner`, for `k` in `1..=count`,
/// removes exactly the `k`-th oldest active note from the owner's view,
/// and changes no record of any other owner nor any other owner's view.
pub proof fn lemma_complete_removes(s: StoreView, owner: u64, k: int)
    requires
        1 <= k <= active_notes(s.records, owner).len(),
    ensures
        active_notes(s.completed_at(owner, k).records, owner) == active_notes(
            s.records,
            owner,
        ).remove(k - 1),
        forall|o: u64|
            o != owner ==> active_notes(s.completed_at(owner, k).records, o) == active_notes(
                s.records,
                o,
            ),
        s.completed_at(owner, k).records.len() == s.records.len(),
        forall|i: int|
            0 <= i < s.records.len() && s.records[i].owner_id != owner
                ==> #[trigger] s.completed_at(owner, k).records[i] == s.records[i],
{
    let recs = s.records;
    let after = s.completed_at(owner, k).records;
    lemma_complete_indices(recs, owner, k - 1);
    lemma_active_indices_bounds(recs, owner);
    lemma_active_indices_bounds(after, owner);
    let j = active_indices(recs, owner)[k - 1];
    assert(active_notes(after, owner) =~= active_notes(recs, owner).remove(k - 1));
    assert forall|o: u64| o != owner implies active_notes(after, o) == active_notes(recs, o) by {
        lemma_active_indices_bounds(recs, o);
        assert(active_notes(after, o) =~= active_notes(recs, o));
    }
}

/// In a well-formed store no two records share an id.
pub proof fn lemma_ids_distinct(s: StoreView)
    requires
        s.wf(),
    ensures
        forall|i: int, j: int|
            0 <= i < s.records.len() && 0 <= j < s.records.len() && i != j ==> s.records[i].id
                != s.records[j].id,
{
    assert forall|i: int, j: int|
        0 <= i < s.records.len() && 0 <= j < s.records.len() && i != j implies s.records[i].id
        != s.records[j].id by {
        if i < j {
            assert(s.records[i].id < s.records[j].id);
        } else {
            assert(s.records[j].id < s.records[i].id);
        }
    }
}

/// `n` adds by one owner each store a record: none is lost, and all the ids
/// that the store then holds, the `n` new ones included, are distinct.
pub proof fn lemma_adds_distinct_ids(s: StoreView, owner: u64, notes: Seq<Seq<char>>)
    requires
        s.wf(),
    ensures
        s.added_all(owner, notes).wf(),
        s.added_all(owner, notes).records.len() == s.records.len() + notes.len(),
        s.added_all(owner, notes).next_id == s.next_id + notes.len(),
        forall|x: int|
            0 <= x < notes.len() ==> #[trigger] s.added_all(owner, notes).records[s.records.len()
                + x] == (TodoView {
                id: (s.next_id + x) as nat,
                owner_id: owner,
                note: notes[x],
                completed: false,
            }),
        forall|i: int, j: int|
            0 <= i < s.added_all(owner, notes).records.len() && 0 <= j < s.added_all(
                owner,
                notes,
            ).records.len() && i != j ==> s.added_all(owner, notes).records[i].id != s.added_all(
                owner,
                notes,
            ).records[j].id,
    decreases notes.len(),
{
    let t = s.added_all(owner, notes);
    if notes.len() > 0 {
        let p = s.added_all(owner, notes.drop_last());
        lemma_adds_distinct_ids(s, owner, notes.drop_last());
        assert forall|x: int| 0 <= x < notes.len() implies #[trigger] t.records[s.records.len()
            + x] == (TodoView {
            id: (s.next_id + x) as nat,
            owner_id: owner,
            note: notes[x],
            completed: false,
        }) by {
            if x < notes.len() - 1 {
                assert(t.records[s.records.len() + x] == p.records[s.records.len() + x]);
            }
        }
    }
    lemma_ids_distinct(t);
}

impl TodoStore {
    /// An empty store.
    pub fn new() -> (r: TodoStore)
        ensures
            r@.records.len() == 0,
            r@.next_id == 1,
            r@.wf(),
    {
        TodoStore { records: Vec::new(), next_id: 1 }
    }

    /// A store holding `records`, as read back from storage, whose next id
    /// follows the last record's. `None` unless the ids strictly increase
    /// and stay below the largest `u64`.
    pub fn from_records(records: Vec<Todo>) -> (r: Option<TodoStore>)
        ensures
            r.is_some() <==> (forall|i: int, j: int|
                0 <= i < j < records@.len() ==> #[trigger] records@[i].id < #[trigger] records@[j].id)
                && (forall|i: int| 0 <= i < records@.len() ==> #[trigger] records@[i].id < u64::MAX),
            r.is_some() ==> r.unwrap().records@ == records@ && r.unwrap()@.wf()
                && r.unwrap().next_id == if records@.len() == 0 {
                1
            } else {
                records@.last().id + 1
            },
    {
        let n = records.len();
        let mut i: usize = 0;
        while i < n
            invariant
                n == records@.len(),
                i <= n,
                forall|x: int, y: int| 0 <= x < y < i ==> #[trigger] records@[x].id < #[trigger] records@[y].id,
                forall|x: int| 0 <= x < i ==> #[trigger] records@[x].id < u64::MAX,
            decreases n - i,
        {
            if records[i].id == u64::MAX {
                return None;
            }
            if i > 0 && records[i - 1].id >= records[i].id {
                return None;
            }
            i = i + 1;
        }
        let next_id: u64 = if n == 0 { 1 } else { records[n - 1].id + 1 };
        let s = TodoStore { records, next_id };
        proof {
            assert forall|x: int| 0 <= x < s.records@.len() implies #[trigger] s@.records[x].id
                < s@.next_id by {
                if x < n - 1 {
                    assert(s.records@[x].id < s.records@[n - 1].id);
                }
            }
        }
        Some(s)
    }

    /// Adds an active todo for `owner_id` and returns its id.
    pub fn add(&mut self, owner_id: u64, note: &str) -> (r: Result<u64, StoreError>)
        requires
            old(self)@.wf(),
        ensures
            final(self)@.wf(),
            r.is_ok() <==> note_len_ok(note@.len()) && old(self).next_id < u64::MAX,
            r == Err::<u64, StoreError>(StoreError::Validation) <==> !note_len_ok(note@.len()),
            r == Err::<u64, StoreError>(StoreError::Unavailable) <==> note_len_ok(note@.len())
                && old(self).next_id == u64::MAX,
            r.is_ok() ==> r == Ok::<u64, StoreError>(old(self).next_id) && final(self)@ == old(
                self,
            )@.added(owner_id, note@),
            r.is_err() ==> final(self)@ == old(self)@,
    {
        let len = note.unicode_len();
        if len < MIN_NOTE_LEN || len > MAX_NOTE_LEN {
            return Err(StoreError::Validation);
        }
        if self.next_id == u64::MAX {
            return Err(StoreError::Unavailable);
        }
        let id = self.next_id;
        let ghost before = self@;
        self.records.push(Todo { id, owner_id, note: String::from_str(note), completed: false });
        self.next_id = id + 1;
        assert(self@.records =~= before.added(owner_id, note@).records);
        Ok(id)
    }

    /// The notes of the active todos of `owner_id`, oldest first.
    pub fn list_active(&self, owner_id: u64) -> (r: Vec<String>)
        ensures
            r@.map_values(|s: String| s@) == active_notes(self@.records, owner_id),
    {
        let mut r: Vec<String> = Vec::new();
        let mut i: usize = 0;
        let ghost recs = self@.records;
        while i < self.records.len()
            invariant
                recs == self@.records,
                i <= self.records.len(),
                r@.map_values(|s: String| s@) == active_notes(recs.subrange(0, i as int), owner_id),
            decreases self.records.len() - i,
        {
            let ghost pre = recs.subrange(0, i as int);
            let ghost cur = recs.subrange(0, i + 1);
            proof {
                assert(cur.drop_last() =~= pre);
                lemma_active_indices_bounds(pre, owner_id);
            }
            let t = &self.records[i];
            if t.owner_id == owner_id && !t.completed {
                let ghost r0 = r@;
                r.push(t.note.clone());
                proof {
                    assert(cur.last() == t@);
                    assert(active_indices(cur, owner_id) == active_indices(pre, owner_id).push(
                        i as int,
                    ));
                    assert forall|x: int|
                        0 <= x < active_indices(pre, owner_id).len() implies cur[active_indices(
                        pre,
                        owner_id,
                    )[x]] == pre[active_indices(pre, owner_id)[x]] by {}
                    assert(r0.map_values(|s: String| s@) == active_notes(pre, owner_id));
                    assert(r0.map_values(|s: String| s@).len() == r0.len());
                    assert(r@.len() == r0.len() + 1);
                    assert(r@.len() == active_notes(cur, owner_id).len());
                    assert forall|x: int| 0 <= x < r@.len() implies r@[x]@ == active_notes(
                        cur,
                        owner_id,
                    )[x] by {
                        if x < r0.len() {
                            assert(r@[x] == r0[x]);
                            assert(r0.map_values(|s: String| s@)[x] == r0[x]@);
                        } else {
                            assert(r@[x] == t.note);
                        }
                    }
                }
                assert(r@.map_values(|s: String| s@) =~= active_notes(cur, owner_id));
            } else {
                assert(r@.map_values(|s: String| s@) =~= active_notes(cur, owner_id));
            }
            i = i + 1;
        }
        assert(recs.subrange(0, i as int) =~= recs);
        r
    }

    /// Marks completed the `position`-th (1-based) active todo of
    /// `owner_id`, oldest first.
    pub fn complete(&mut self, owner_id: u64, position: i64) -> (r: Result<(), StoreError>)
        requires
            old(self)@.wf(),
        ensures
            final(self)@.wf(),
            r.is_ok() <==> 1 <= position <= active_notes(old(self)@.records, owner_id).len(),
            r.is_err() ==> r == Err::<(), StoreError>(StoreError::NotFound) && final(self)@ == old(
                self,
            )@,
            r.is_ok() ==> final(self)@ == old(self)@.completed_at(owner_id, position as int),
    {
        if position < 1 {
            return Err(StoreError::NotFound);
        }
        let ghost recs = self@.records;
        proof {
            lemma_active_indices_bounds(recs, owner_id);
        }
        let mut count: i64 = 0;
        let mut i: usize = 0;
        while i < self.records.len()
            invariant
                recs == self@.records,
                old(self)@ == self@,
                self@.wf(),
                i <= self.records.len(),
                1 <= position,
                count == active_indices(recs.subrange(0, i as int), owner_id).len(),
                count < position,
                count <= i,
            decreases self.records.len() - i,
        {
            let ghost pre = recs.subrange(0, i as int);
            let ghost cur = recs.subrange(0, i + 1);
            assert(cur.drop_last() =~= pre);
            if self.records[i].owner_id == owner_id && !self.records[i].completed {
                count = count + 1;
                if count == position {
                    proof {
                        lemma_active_indices_prefix(recs, owner_id, i + 1);
                        assert(active_indices(cur, owner_id)[count - 1] == i);
                    }
                    let t = &self.records[i];
                    let done = Todo {
                        id: t.id,
                        owner_id: t.owner_id,
                        note: t.note.clone(),
                        completed: true,
                    };
                    let ghost before = self@;
                    self.records.set(i, done);
                    proof {
                        let j = active_indices(recs, owner_id)[position - 1];
                        assert(j == i);
                        assert(before.wf());
                        assert forall|x: int, y: int|
                            0 <= x < y < self@.records.len() implies self@.records[x].id
                            < self@.records[y].id by {
                            assert(self@.records[x].id == before.records[x].id);
                            assert(self@.records[y].id == before.records[y].id);
                        }
                        assert forall|x: int| 0 <= x < self@.records.len() implies self@.records[x].id
                            < self@.next_id by {
                            assert(self@.records[x].id == before.records[x].id);
                        }
                        assert(self@.records =~= before.completed_at(owner_id, position as int).records);
                    }
                    return Ok(());
                }
            }
            i = i + 1;
        }
        assert(recs.subrange(0, i as int) =~= recs);
        Err(StoreError::NotFound)
    }
}

} // verus!
