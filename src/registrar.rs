use vstd::prelude::*;
use crate::text::same_text;

verus! {

/// Where a command schema is published: everywhere, or in one community.
#[derive(Clone, Copy, Debug, PartialEq, Eq, Structural)]
pub enum Scope {
    Global,
    Guild(u64),
}

/// A community as the gateway reports it when the session becomes ready.
#[derive(Clone, Copy, Debug, PartialEq, Eq, Structural)]
pub struct Guild {
    pub id: u64,
    pub available: bool,
}

/// The command names published in one scope.
pub struct Published {
    pub scope: Scope,
    pub commands: Vec<String>,
}

/// The command schemas published so far, at most one per scope.
pub struct Registry {
    pub entries: Vec<Published>,
}

/// The schema that each scope holds, for entries listed oldest first.
pub open spec fn schema_map(es: Seq<(Scope, Seq<Seq<char>>)>) -> Map<Scope, Seq<Seq<char>>>
    decreases es.len(),
{
    if es.len() == 0 {
        Map::empty()
    } else {
        schema_map(es.drop_last()).insert(es.last().0, es.last().1)
    }
}

/// No two entries share a scope.
pub open spec fn scopes_unique(es: Seq<(Scope, Seq<Seq<char>>)>) -> bool {
    forall|i: int, j: int| 0 <= i < j < es.len() ==> #[trigger] es[i].0 != #[trigger] es[j].0
}

/// The ids of the available communities among `gs`, in order.
pub open spec fn available_ids(gs: Seq<Guild>) -> Seq<u64>
    decreases gs.len(),
{
    if gs.len() == 0 {
        Seq::empty()
    } else if gs.last().available {
        available_ids(gs.drop_last()).push(gs.last().id)
    } else {
        available_ids(gs.drop_last())
    }
}

/// The targets among `outcomes` whose publish failed, in order.
pub open spec fn failed_ids(outcomes: Seq<(u64, bool)>) -> Seq<u64>
    decreases outcomes.len(),
{
    if outcomes.len() == 0 {
        Seq::empty()
    } else if !outcomes.last().1 {
        failed_ids(outcomes.drop_last()).push(outcomes.last().0)
    } else {
        failed_ids(outcomes.drop_last())
    }
}

impl Registry {
    /// Each entry as its scope and the characters of its command names.
    pub open spec fn entries_view(&self) -> Seq<(Scope, Seq<Seq<char>>)> {
        self.entries@.map_values(|p: Published| (p.scope, p.commands@.map_values(|s: String| s@)))
    }

    /// No scope is published twice, and no scope holds a command name twice.
    pub open spec fn wf(&self) -> bool {
        &&& scopes_unique(self.entries_view())
        &&& forall|i: int|
            0 <= i < self.entries_view().len() ==> (#[trigger] self.entries_view()[i]).1.no_duplicates()
    }
}

impl View for Registry {
    type V = Map<Scope, Seq<Seq<char>>>;

    open spec fn view(&self) -> Map<Scope, Seq<Seq<char>>> {
        schema_map(self.entries_view())
    }
}

proof fn lemma_schema_map_update(es: Seq<(Scope, Seq<Seq<char>>)>, i: int, c: Seq<Seq<char>>)
    requires
        scopes_unique(es),
        0 <= i < es.len(),
    ensures
        schema_map(es.update(i, (es[i].0, c))) == schema_map(es).insert(es[i].0, c),
    decreases es.len(),
{
    let u = es.update(i, (es[i].0, c));
    let d = es.drop_last();
    if i == es.len() - 1 {
        assert(u.drop_last() =~= d);
        assert(schema_map(u) =~= schema_map(es).insert(es[i].0, c));
    } else {
        assert(u.drop_last() =~= d.update(i, (d[i].0, c)));
        lemma_schema_map_update(d, i, c);
        assert(es[i].0 != es.last().0);
        assert(schema_map(u) =~= schema_map(es).insert(es[i].0, c));
    }
}

proof fn lemma_schema_map_has(es: Seq<(Scope, Seq<Seq<char>>)>, scope: Scope)
    ensures
        schema_map(es).dom().contains(scope) <==> exists|i: int|
            0 <= i < es.len() && #[trigger] es[i].0 == scope,
    decreases es.len(),
{
    if es.len() > 0 {
        let d = es.drop_last();
        lemma_schema_map_has(d, scope);
        if schema_map(es).dom().contains(scope) && es.last().0 != scope {
            let i = choose|i: int| 0 <= i < d.len() && #[trigger] d[i].0 == scope;
            assert(es[i].0 == scope);
        }
        if exists|i: int| 0 <= i < es.len() && #[trigger] es[i].0 == scope {
            let i = choose|i: int| 0 <= i < es.len() && #[trigger] es[i].0 == scope;
            if i < es.len() - 1 {
                assert(d[i].0 == scope);
            }
        }
    }
}

/// The published schemas after publishing `schema` to `scope` `k` times.
pub open spec fn published_times(
    published: Map<Scope, Seq<Seq<char>>>,
    scope: Scope,
    schema: Seq<Seq<char>>,
    k: nat,
) -> Map<Scope, Seq<Seq<char>>>
    decreases k,
{
    if k == 0 {
        published
    } else {
        published_times(published, scope, schema, (k - 1) as nat).insert(scope, schema)
    }
}

/// Publishing the same schema to a scope on each of `k >= 1` startups gives
/// what one publish gives: the scope holds exactly that schema's names,
/// each once when the schema names each command once, and no other scope
/// changes.
pub proof fn lemma_publish_repeated(
    published: Map<Scope, Seq<Seq<char>>>,
    scope: Scope,
    schema: Seq<Seq<char>>,
    k: nat,
)
    requires
        k >= 1,
    ensures
        published_times(published, scope, schema, k) == published.insert(scope, schema),
        published_times(published, scope, schema, k)[scope] == schema,
        schema.no_duplicates() ==> published_times(published, scope, schema, k)[scope].no_duplicates(),
    decreases k,
{
    lemma_publish_idempotent(published, scope, schema);
    if k > 1 {
        lemma_publish_repeated(published, scope, schema, (k - 1) as nat);
        assert(published_times(published, scope, schema, k) =~= published.insert(scope, schema));
    } else {
        assert(published_times(published, scope, schema, 0) == published);
        assert(published_times(published, scope, schema, k) =~= published.insert(scope, schema));
    }
}

/// Publishing a schema overwrites what its scope held; publishing the same
/// schema to the same scope a second time changes nothing.
pub proof fn lemma_publish_idempotent(
    published: Map<Scope, Seq<Seq<char>>>,
    scope: Scope,
    schema: Seq<Seq<char>>,
)
    ensures
        published.insert(scope, schema).insert(scope, schema) == published.insert(scope, schema),
        published.insert(scope, schema)[scope] == schema,
        published.insert(scope, schema).dom() == published.dom().insert(scope),
{
    assert(published.insert(scope, schema).insert(scope, schema) =~= published.insert(
        scope,
        schema,
    ));
}

impl Registry {
    /// A registry with nothing published.
    pub fn new() -> (r: Registry)
        ensures
            r.wf(),
            r@ == Map::<Scope, Seq<Seq<char>>>::empty(),
    {
        let r = Registry { entries: Vec::new() };
        assert(r.entries_view() =~= Seq::<(Scope, Seq<Seq<char>>)>::empty());
        r
    }

    /// Publishes `commands` in `scope`, replacing what it held. A schema
    /// that names a command twice is refused and changes nothing.
    pub fn publish(&mut self, scope: Scope, commands: Vec<String>) -> (r: bool)
        requires
            old(self).wf(),
        ensures
            final(self).wf(),
            r == commands@.map_values(|s: String| s@).no_duplicates(),
            r ==> final(self)@ == old(self)@.insert(scope, commands@.map_values(|s: String| s@)),
            !r ==> final(self)@ == old(self)@,
    {
        let ghost c = commands@.map_values(|s: String| s@);
        if !names_distinct(&commands) {
            return false;
        }
        let ghost es = self.entries_view();
        let mut i: usize = 0;
        while i < self.entries.len()
            invariant
                es == self.entries_view(),
                es == old(self).entries_view(),
                c == commands@.map_values(|s: String| s@),
                c.no_duplicates(),
                old(self).wf(),
                scopes_unique(es),
                i <= self.entries@.len(),
                forall|x: int| 0 <= x < i ==> #[trigger] es[x].0 != scope,
            decreases self.entries@.len() - i,
        {
            if self.entries[i].scope == scope {
                let ghost before = self.entries@;
                let p = Published { scope, commands };
                self.entries.set(i, p);
                proof {
                    assert(es[i as int].0 == scope);
                    assert(self.entries@ == before.update(i as int, p));
                    assert(self.entries_view() =~= es.update(i as int, (es[i as int].0, c)));
                    lemma_schema_map_update(es, i as int, c);
                }
                return true;
            }
            i = i + 1;
        }
        self.entries.push(Published { scope, commands });
        proof {
            assert(self.entries_view() =~= es.push((scope, c)));
            assert(self.entries_view().drop_last() =~= es);
        }
        true
    }

    /// The command names published in `scope`, if any.
    pub fn schema_of(&self, scope: Scope) -> (r: Option<Vec<String>>)
        requires
            self.wf(),
        ensures
            r.is_some() <==> self@.dom().contains(scope),
            r.is_some() ==> r.unwrap()@.map_values(|s: String| s@) == self@[scope],
    {
        let ghost es = self.entries_view();
        proof {
            lemma_schema_map_has(es, scope);
        }
        let mut i: usize = 0;
        while i < self.entries.len()
            invariant
                es == self.entries_view(),
                scopes_unique(es),
                i <= self.entries@.len(),
                forall|x: int| 0 <= x < i ==> #[trigger] es[x].0 != scope,
            decreases self.entries@.len() - i,
        {
            if self.entries[i].scope == scope {
                let src = &self.entries[i].commands;
                let mut out: Vec<String> = Vec::new();
                let mut k: usize = 0;
                while k < src.len()
                    invariant
                        k <= src@.len(),
                        out@.len() == k,
                        forall|y: int| 0 <= y < k ==> #[trigger] out@[y]@ == src@[y]@,
                    decreases src@.len() - k,
                {
                    out.push(src[k].clone());
                    k = k + 1;
                }
                proof {
                    assert(es[i as int].0 == scope);
                    assert(self.entries_view().update(i as int, (scope, es[i as int].1))
                        =~= self.entries_view());
                    lemma_schema_map_update(es, i as int, es[i as int].1);
                    assert(out@.map_values(|s: String| s@) =~= es[i as int].1);
                }
                return Some(out);
            }
            i = i + 1;
        }
        None
    }
}

/// Whether no two of `names` are the same.
pub fn names_distinct(names: &Vec<String>) -> (r: bool)
    ensures
        r == names@.map_values(|s: String| s@).no_duplicates(),
{
    let ghost ns = names@.map_values(|s: String| s@);
    let n = names.len();
    let mut i: usize = 0;
    while i < n
        invariant
            n == names@.len(),
            ns == names@.map_values(|s: String| s@),
            i <= n,
            forall|x: int, y: int| 0 <= x < i && 0 <= y < n && x != y ==> ns[x] != ns[y],
        decreases n - i,
    {
        let mut j: usize = 0;
        while j < n
            invariant
                n == names@.len(),
                ns == names@.map_values(|s: String| s@),
                i < n,
                j <= n,
                forall|x: int, y: int| 0 <= x < i && 0 <= y < n && x != y ==> ns[x] != ns[y],
                forall|y: int| 0 <= y < j && y != i ==> ns[i as int] != ns[y],
            decreases n - j,
        {
            if j != i && same_text(names[i].as_str(), names[j].as_str()) {
                assert(ns[i as int] == ns[j as int]);
                return false;
            }
            j = j + 1;
        }
        i = i + 1;
    }
    true
}

/// The communities that get a community-scoped copy of the schema: those
/// reported as available, in the order reported.
pub fn registration_targets(guilds: &Vec<Guild>) -> (r: Vec<u64>)
    ensures
        r@ == available_ids(guilds@),
{
    let mut r: Vec<u64> = Vec::new();
    let mut i: usize = 0;
    while i < guilds.len()
        invariant
            i <= guilds@.len(),
            r@ == available_ids(guilds@.subrange(0, i as int)),
        decreases guilds@.len() - i,
    {
        proof {
            assert(guilds@.subrange(0, i + 1).drop_last() =~= guilds@.subrange(0, i as int));
        }
        let g = guilds[i];
        if g.available {
            r.push(g.id);
        }
        i = i + 1;
    }
    assert(guilds@.subrange(0, i as int) =~= guilds@);
    r
}

/// Folds the per-community publish outcomes of one startup pass, each a
/// community id and whether its publish succeeded, into the ids that failed.
/// Every outcome is looked at: one failure does not end the pass.
pub fn failed_targets(outcomes: &Vec<(u64, bool)>) -> (r: Vec<u64>)
    ensures
        r@ == failed_ids(outcomes@),
{
    let mut r: Vec<u64> = Vec::new();
    let mut i: usize = 0;
    while i < outcomes.len()
        invariant
            i <= outcomes@.len(),
            r@ == failed_ids(outcomes@.subrange(0, i as int)),
        decreases outcomes@.len() - i,
    {
        proof {
            assert(outcomes@.subrange(0, i + 1).drop_last() =~= outcomes@.subrange(0, i as int));
        }
        let (id, ok) = outcomes[i];
        if !ok {
            r.push(id);
        }
        i = i + 1;
    }
    assert(outcomes@.subrange(0, i as int) =~= outcomes@);
    r
}

} // verus!
