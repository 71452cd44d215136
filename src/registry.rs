use vstd::prelude::*;

verus! {

/// One live connection: its stable id, its current identity and its send-capability.
pub struct ConnectedUser<C> {
    pub id: u128,
    pub username: String,
    pub sender: C,
}

/// The table of every live connection, in order of registration.
pub struct ConnectedUsers<C> {
    list: Vec<ConnectedUser<C>>,
}

/// An entry as the contracts see it: id, identity, send-capability.
pub type Entry<C> = (u128, Seq<char>, C);

pub open spec fn entry_of<C>(u: ConnectedUser<C>) -> Entry<C> {
    (u.id, u.username@, u.sender)
}

/// No two entries share an id.
pub open spec fn ids_unique<C>(s: Seq<Entry<C>>) -> bool {
    forall|i: int, j: int| 0 <= i < s.len() && 0 <= j < s.len() && i != j ==> s[i].0 != s[j].0
}

pub open spec fn has_id<C>(s: Seq<Entry<C>>, id: u128) -> bool {
    exists|i: int| 0 <= i < s.len() && s[i].0 == id
}

/// The position of the entry with id `id`, where there is one.
pub open spec fn index_of_id<C>(s: Seq<Entry<C>>, id: u128) -> int {
    choose|i: int| 0 <= i < s.len() && s[i].0 == id
}

/// `i` is the first entry whose identity is `name`.
pub open spec fn first_named<C>(s: Seq<Entry<C>>, name: Seq<char>, i: int) -> bool {
    0 <= i < s.len() && s[i].1 == name && forall|j: int| 0 <= j < i ==> s[j].1 != name
}

/// The entry that a lookup of `name` resolves to: the first registered with that identity.
pub open spec fn lookup<C>(s: Seq<Entry<C>>, name: Seq<char>) -> Option<Entry<C>> {
    if exists|i: int| first_named(s, name, i) {
        Some(s[choose|i: int| first_named(s, name, i)])
    } else {
        None
    }
}

/// `c` is the least id in `0..=len` that no entry holds.
pub open spec fn least_free<C>(s: Seq<Entry<C>>, c: int) -> bool {
    &&& 0 <= c <= s.len()
    &&& !has_id(s, c as u128)
    &&& forall|d: int| 0 <= d < c ==> #[trigger] has_id(s, d as u128)
}

/// The id a registration under `id` receives: `id` itself where no entry holds it, else
/// the least id in `0..=len` that no entry holds.
pub open spec fn assigned_id<C>(s: Seq<Entry<C>>, id: u128) -> u128 {
    if !has_id(s, id) {
        id
    } else {
        (choose|c: int| least_free(s, c)) as u128
    }
}

/// The table after registering under `id`: always one more entry, at the end.
pub open spec fn registered<C>(s: Seq<Entry<C>>, id: u128, name: Seq<char>, cap: C) -> Seq<
    Entry<C>,
> {
    s.push((assigned_id(s, id), name, cap))
}

/// Of the `len + 1` ids in `0..=len`, the `len` entries cannot hold all.
proof fn lemma_free_id_exists<C>(s: Seq<Entry<C>>)
    requires
        s.len() <= usize::MAX,
    ensures
        exists|c: int| 0 <= c <= s.len() && !#[trigger] has_id(s, c as u128),
{
    let ids = s.map_values(|e: Entry<C>| e.0 as int);
    if forall|c: int| 0 <= c <= s.len() ==> #[trigger] has_id(s, c as u128) {
        let range = vstd::set_lib::set_int_range(0, (s.len() + 1) as int);
        vstd::set_lib::lemma_int_range(0, (s.len() + 1) as int);
        ids.lemma_cardinality_of_set();
        vstd::seq_lib::seq_to_set_is_finite::<int>(ids);
        assert forall|c: int| range.contains(c) implies ids.to_set().contains(c) by {
            assert(has_id(s, c as u128));
            let i = choose|i: int| 0 <= i < s.len() && s[i].0 == c as u128;
            assert(ids[i] == c);
        }
        vstd::set_lib::lemma_len_subset(range, ids.to_set());
    }
}

proof fn lemma_least_exists<C>(s: Seq<Entry<C>>, c: int)
    requires
        0 <= c <= s.len(),
        !has_id(s, c as u128),
    ensures
        exists|l: int| least_free(s, l),
    decreases c,
{
    if forall|d: int| 0 <= d < c ==> #[trigger] has_id(s, d as u128) {
        assert(least_free(s, c));
    } else {
        let d = choose|d: int| 0 <= d < c && !#[trigger] has_id(s, d as u128);
        lemma_least_exists(s, d);
    }
}

proof fn lemma_least_unique<C>(s: Seq<Entry<C>>, a: int, b: int)
    requires
        least_free(s, a),
        least_free(s, b),
    ensures
        a == b,
{
    if a < b {
        assert(has_id(s, a as u128));
    } else if b < a {
        assert(has_id(s, b as u128));
    }
}

/// The id a registration receives is held by no entry.
pub proof fn lemma_assigned_fresh<C>(s: Seq<Entry<C>>, id: u128)
    requires
        s.len() <= usize::MAX,
    ensures
        !has_id(s, assigned_id(s, id)),
{
    if has_id(s, id) {
        lemma_free_id_exists(s);
        let c = choose|c: int| 0 <= c <= s.len() && !#[trigger] has_id(s, c as u128);
        lemma_least_exists(s, c);
    }
}

/// The table after removing `id`: unchanged where the id is absent.
pub open spec fn deregistered<C>(s: Seq<Entry<C>>, id: u128) -> Seq<Entry<C>> {
    if has_id(s, id) {
        s.remove(index_of_id(s, id))
    } else {
        s
    }
}

/// The table after giving `id` the identity `name`: unchanged where the id is absent.
pub open spec fn renamed<C>(s: Seq<Entry<C>>, id: u128, name: Seq<char>) -> Seq<Entry<C>> {
    if has_id(s, id) {
        let i = index_of_id(s, id);
        s.update(i, (id, name, s[i].2))
    } else {
        s
    }
}

/// The identities of all entries, in order of registration.
pub open spec fn identities<C>(s: Seq<Entry<C>>) -> Seq<Seq<char>> {
    s.map_values(|e: Entry<C>| e.1)
}

proof fn lemma_unique_index<C>(s: Seq<Entry<C>>, id: u128, i: int)
    requires
        ids_unique(s),
        0 <= i < s.len(),
        s[i].0 == id,
    ensures
        has_id(s, id),
        index_of_id(s, id) == i,
{
}

proof fn lemma_first_named<C>(s: Seq<Entry<C>>, name: Seq<char>, i: int)
    requires
        first_named(s, name, i),
    ensures
        lookup(s, name) == Some(s[i]),
{
    let k = choose|k: int| first_named(s, name, k);
    assert(k == i) by {
        if k < i {
            assert(s[k].1 != name);
        } else if k > i {
            assert(s[i].1 != name);
        }
    }
}

/// After a connection is registered and then removed under the id it received, a lookup
/// of its identity finds nothing, where no other connection had that identity.
pub proof fn lemma_register_then_deregister<C>(s: Seq<Entry<C>>, id: u128, name: Seq<char>, cap: C)
    requires
        ids_unique(s),
        s.len() <= usize::MAX,
        forall|i: int| 0 <= i < s.len() ==> s[i].1 != name,
    ensures
        lookup(deregistered(registered(s, id, name, cap), assigned_id(s, id)), name) is None,
{
    let a = assigned_id(s, id);
    lemma_assigned_fresh(s, id);
    let t = registered(s, id, name, cap);
    assert(ids_unique(t));
    lemma_unique_index(t, a, s.len() as int);
    assert(t.remove(s.len() as int) =~= s);
}

/// The table after registering each entry of `es` in turn.
pub open spec fn register_all<C>(s: Seq<Entry<C>>, es: Seq<Entry<C>>) -> Seq<Entry<C>>
    decreases es.len(),
{
    if es.len() == 0 {
        s
    } else {
        let e = es.last();
        registered(register_all(s, es.drop_last()), e.0, e.1, e.2)
    }
}

/// After N connections are registered into an empty table, whatever ids they came with,
/// the table holds exactly N entries with pairwise distinct ids, the i-th with the i-th
/// identity and send-capability, and a snapshot lists N identities; where the ids were
/// already distinct, each entry keeps its own.
pub proof fn lemma_registrations_listed<C>(es: Seq<Entry<C>>)
    requires
        es.len() <= usize::MAX,
    ensures
        register_all(Seq::empty(), es).len() == es.len(),
        ids_unique(register_all(Seq::empty(), es)),
        forall|i: int|
            0 <= i < es.len() ==> (#[trigger] register_all(Seq::<Entry<C>>::empty(), es)[i]).1
                == es[i].1 && register_all(Seq::<Entry<C>>::empty(), es)[i].2 == es[i].2,
        identities(register_all(Seq::empty(), es)).len() == es.len(),
        ids_unique(es) ==> register_all(Seq::empty(), es) == es,
    decreases es.len(),
{
    if es.len() > 0 {
        let d = es.drop_last();
        let e = es.last();
        lemma_registrations_listed(d);
        let t = register_all(Seq::<Entry<C>>::empty(), d);
        lemma_assigned_fresh(t, e.0);
        let r = register_all(Seq::<Entry<C>>::empty(), es);
        assert(r == t.push((assigned_id(t, e.0), e.1, e.2)));
        assert(ids_unique(r));
        if ids_unique(es) {
            assert(ids_unique(d));
            assert(t == d);
            assert(!has_id(d, e.0)) by {
                if has_id(d, e.0) {
                    let i = choose|i: int| 0 <= i < d.len() && d[i].0 == e.0;
                    assert(es[i].0 == es[es.len() - 1].0);
                }
            }
            assert(d.push(e) =~= es);
        }
    } else {
        assert(register_all(Seq::<Entry<C>>::empty(), es) =~= es);
    }
}

/// After connection `id`, registered as `old_name`, is renamed to `new_name`, a lookup of
/// `old_name` finds nothing and a lookup of `new_name` resolves to the same connection and
/// send-capability as before, where no other connection has either identity.
pub proof fn lemma_rename_moves_lookup<C>(
    s: Seq<Entry<C>>,
    id: u128,
    old_name: Seq<char>,
    new_name: Seq<char>,
)
    requires
        ids_unique(s),
        has_id(s, id),
        s[index_of_id(s, id)].1 == old_name,
        new_name != old_name,
        forall|j: int| 0 <= j < s.len() && s[j].0 != id ==> s[j].1 != old_name && s[j].1 != new_name,
    ensures
        lookup(s, old_name) == Some(s[index_of_id(s, id)]),
        lookup(renamed(s, id, new_name), old_name) is None,
        lookup(renamed(s, id, new_name), new_name) matches Some(e) && e.0 == id && e.2 == s[index_of_id(
            s,
            id,
        )].2,
{
    let i = index_of_id(s, id);
    lemma_unique_index(s, id, i);
    assert(first_named(s, old_name, i));
    lemma_first_named(s, old_name, i);
    let t = renamed(s, id, new_name);
    assert(t == s.update(i, (id, new_name, s[i].2)));
    assert(first_named(t, new_name, i));
    lemma_first_named(t, new_name, i);
    if exists|k: int| first_named(t, old_name, k) {
        let k = choose|k: int| first_named(t, old_name, k);
        assert(t[k].1 == old_name);
    }
}

impl<C> View for ConnectedUsers<C> {
    type V = Seq<Entry<C>>;

    closed spec fn view(&self) -> Seq<Entry<C>> {
        self.list@.map_values(|u: ConnectedUser<C>| entry_of(u))
    }
}

impl<C> ConnectedUsers<C> {
    /// The table's invariant: ids are unique.
    pub open spec fn wf(&self) -> bool {
        ids_unique(self@)
    }

    /// An empty table.
    pub fn new() -> (r: Self)
        ensures
            r.wf(),
            r@ == Seq::<Entry<C>>::empty(),
    {
        let r = ConnectedUsers { list: Vec::new() };
        assert(r@ =~= Seq::<Entry<C>>::empty());
        r
    }

    /// The position of the entry with id `id`.
    fn position_of_id(&self, id: u128) -> (r: Option<usize>)
        requires
            self.wf(),
        ensures
            match r {
                Some(i) => i < self@.len() && self@[i as int].0 == id && index_of_id(self@, id)
                    == i && has_id(self@, id),
                None => !has_id(self@, id),
            },
    {
        let mut i: usize = 0;
        while i < self.list.len()
            invariant
                self.wf(),
                i <= self@.len(),
                self@.len() == self.list@.len(),
                forall|j: int| 0 <= j < i ==> self@[j].0 != id,
            decreases self.list@.len() - i,
        {
            assert(self@[i as int] == entry_of(self.list@[i as int]));
            if self.list[i].id == id {
                proof {
                    lemma_unique_index(self@, id, i as int);
                }
                return Some(i);
            }
            i = i + 1;
        }
        None
    }

    /// The position of the first entry whose identity is `name`.
    fn position_of_name(&self, name: &str) -> (r: Option<usize>)
        ensures
            match r {
                Some(i) => first_named(self@, name@, i as int) && lookup(self@, name@) == Some(
                    self@[i as int],
                ),
                None => lookup(self@, name@) is None && forall|j: int|
                    0 <= j < self@.len() ==> self@[j].1 != name@,
            },
    {
        let key = name.to_owned();
        let mut i: usize = 0;
        while i < self.list.len()
            invariant
                key@ == name@,
                i <= self@.len(),
                self@.len() == self.list@.len(),
                forall|j: int| 0 <= j < i ==> self@[j].1 != name@,
            decreases self.list@.len() - i,
        {
            assert(self@[i as int] == entry_of(self.list@[i as int]));
            if self.list[i].username == key {
                proof {
                    lemma_first_named(self@, name@, i as int);
                }
                return Some(i);
            }
            i = i + 1;
        }
        None
    }

    /// Whether `id` is a live connection.
    pub fn contains_id(&self, id: u128) -> (r: bool)
        requires
            self.wf(),
        ensures
            r == has_id(self@, id),
    {
        self.position_of_id(id).is_some()
    }

    /// The least id in `0..=len` that no entry holds.
    fn least_free_id(&self) -> (r: u128)
        requires
            self.wf(),
        ensures
            least_free(self@, r as int),
    {
        let n = self.list.len();
        proof {
            lemma_free_id_exists(self@);
        }
        let mut c: usize = 0;
        loop
            invariant
                self.wf(),
                n == self@.len(),
                c <= n,
                forall|d: int| 0 <= d < c ==> #[trigger] has_id(self@, d as u128),
                exists|f: int| 0 <= f <= self@.len() && !#[trigger] has_id(self@, f as u128),
            decreases n - c,
        {
            if !self.contains_id(c as u128) {
                return c as u128;
            }
            if c == n {
                proof {
                    let f = choose|f: int| 0 <= f <= self@.len() && !#[trigger] has_id(self@, f as u128);
                    assert(has_id(self@, f as u128));
                }
                return 0;
            }
            c = c + 1;
        }
    }

    /// Adds a connection under `id`, or under the least free id where `id` is already live;
    /// returns the id the connection received. Never fails.
    pub fn register(&mut self, id: u128, name: String, sender: C) -> (r: u128)
        requires
            old(self).wf(),
        ensures
            final(self).wf(),
            r == assigned_id(old(self)@, id),
            !has_id(old(self)@, r),
            final(self)@ == registered(old(self)@, id, name@, sender),
    {
        let ghost before = self@;
        let rid = if self.contains_id(id) {
            let c = self.least_free_id();
            proof {
                let l = choose|l: int| least_free(before, l);
                lemma_least_unique(before, l, c as int);
            }
            c
        } else {
            id
        };
        self.list.push(ConnectedUser { id: rid, username: name, sender });
        assert(self@ =~= before.push((rid, name@, sender)));
        rid
    }

    /// Removes a connection; removing an absent id changes nothing.
    pub fn deregister(&mut self, id: u128)
        requires
            old(self).wf(),
        ensures
            final(self).wf(),
            final(self)@ == deregistered(old(self)@, id),
    {
        match self.position_of_id(id) {
            None => {},
            Some(i) => {
                let ghost before = self@;
                self.list.remove(i);
                assert(self@ =~= before.remove(i as int));
            },
        }
    }

    /// Gives a connection a new identity; `false`, with nothing changed, where `id` is absent.
    pub fn rename(&mut self, id: u128, name: String) -> (r: bool)
        requires
            old(self).wf(),
        ensures
            final(self).wf(),
            r == has_id(old(self)@, id),
            final(self)@ == renamed(old(self)@, id, name@),
    {
        match self.position_of_id(id) {
            None => false,
            Some(i) => {
                let ghost before = self@;
                self.list[i].username = name;
                assert(self@ =~= before.update(i as int, (id, name@, before[i as int].2)));
                true
            },
        }
    }

    /// The send-capability of the first connection registered under `name`.
    pub fn lookup_by_identity(&self, name: &str) -> (r: Option<&C>)
        ensures
            match r {
                Some(c) => lookup(self@, name@) matches Some(e) && e.2 == *c,
                None => lookup(self@, name@) is None,
            },
    {
        match self.position_of_name(name) {
            Some(i) => {
                assert(self@[i as int] == entry_of(self.list@[i as int]));
                Some(&self.list[i].sender)
            },
            None => None,
        }
    }

    /// The id of the first connection registered under `name`.
    pub fn id_by_identity(&self, name: &str) -> (r: Option<u128>)
        ensures
            match r {
                Some(id) => lookup(self@, name@) matches Some(e) && e.0 == id,
                None => lookup(self@, name@) is None,
            },
    {
        match self.position_of_name(name) {
            Some(i) => {
                assert(self@[i as int] == entry_of(self.list@[i as int]));
                Some(self.list[i].id)
            },
            None => None,
        }
    }

    /// The send-capability of connection `id`.
    pub fn sender_of(&self, id: u128) -> (r: Option<&C>)
        requires
            self.wf(),
        ensures
            match r {
                Some(c) => has_id(self@, id) && self@[index_of_id(self@, id)].2 == *c,
                None => !has_id(self@, id),
            },
    {
        match self.position_of_id(id) {
            Some(i) => {
                assert(self@[i as int] == entry_of(self.list@[i as int]));
                Some(&self.list[i].sender)
            },
            None => None,
        }
    }

    /// The identities of all live connections, in order of registration.
    pub fn snapshot_identities(&self) -> (r: Vec<String>)
        ensures
            r@.map_values(|s: String| s@) == identities(self@),
    {
        let mut out: Vec<String> = Vec::new();
        let mut i: usize = 0;
        while i < self.list.len()
            invariant
                i <= self@.len(),
                self@.len() == self.list@.len(),
                out@.len() == i,
                forall|j: int| 0 <= j < i ==> out@[j]@ == self@[j].1,
            decreases self.list@.len() - i,
        {
            assert(self@[i as int] == entry_of(self.list@[i as int]));
            out.push(self.list[i].username.clone());
            i = i + 1;
        }
        assert(out@.map_values(|s: String| s@) =~= identities(self@));
        out
    }

    /// The number of live connections.
    pub fn len(&self) -> (r: usize)
        ensures
            r == self@.len(),
    {
        self.list.len()
    }
}

} // verus!
