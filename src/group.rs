use vstd::prelude::*;
use crate::trigger::TriggerKind;

verus! {

/// The key that systems are grouped under: a state value, by the spelling
/// of its type and variant, and a trigger kind.
#[derive(Clone, Debug)]
pub struct RegistrationKey {
    pub state_type: String,
    pub variant: String,
    pub kind: TriggerKind,
}

pub type KeyView = (Seq<char>, Seq<char>, TriggerKind);

impl View for RegistrationKey {
    type V = KeyView;

    open spec fn view(&self) -> KeyView {
        (self.state_type@, self.variant@, self.kind)
    }
}

impl RegistrationKey {
    /// Structural equality: both parts of the state and the kind.
    pub fn same_as(&self, other: &RegistrationKey) -> (r: bool)
        ensures
            r == (self@ == other@),
    {
        self.state_type == other.state_type && self.variant == other.variant && self.kind
            == other.kind
    }
}

/// No two groups share a key.
pub open spec fn keys_distinct<K, E>(groups: Seq<(K, Seq<E>)>) -> bool {
    forall|a: int, b: int|
        0 <= a < groups.len() && 0 <= b < groups.len() && a != b ==> groups[a].0 != groups[b].0
}

pub open spec fn has_key<K, E>(groups: Seq<(K, Seq<E>)>, k: K) -> bool {
    exists|a: int| 0 <= a < groups.len() && groups[a].0 == k
}

/// The lookup-or-create-then-append step: `e` joins the group keyed `k`,
/// which is created at the end if there is none yet.
pub open spec fn add_to<K, E>(groups: Seq<(K, Seq<E>)>, k: K, e: E) -> Seq<(K, Seq<E>)> {
    if has_key(groups, k) {
        let a = choose|a: int| 0 <= a < groups.len() && groups[a].0 == k;
        groups.update(a, (k, groups[a].1.push(e)))
    } else {
        groups.push((k, seq![e]))
    }
}

/// The groups after adding the entries of `s`, in order, to `groups`.
pub open spec fn add_all<K, E>(groups: Seq<(K, Seq<E>)>, s: Seq<(K, E)>) -> Seq<(K, Seq<E>)>
    decreases s.len(),
{
    if s.len() == 0 {
        groups
    } else {
        add_to(add_all(groups, s.drop_last()), s.last().0, s.last().1)
    }
}

/// The groups that the entries of `s` form.
pub open spec fn group_all<K, E>(s: Seq<(K, E)>) -> Seq<(K, Seq<E>)> {
    add_all(Seq::empty(), s)
}

/// The payloads of the entries of `s` keyed `k`, in order.
pub open spec fn members_of<K, E>(s: Seq<(K, E)>, k: K) -> Seq<E>
    decreases s.len(),
{
    if s.len() == 0 {
        Seq::empty()
    } else if s.last().0 == k {
        members_of(s.drop_last(), k).push(s.last().1)
    } else {
        members_of(s.drop_last(), k)
    }
}

/// Accumulated groups of systems, one per registration key, in the order in
/// which the keys were first added.
pub struct Registry<E> {
    keys: Vec<RegistrationKey>,
    members: Vec<Vec<E>>,
}

impl<E> View for Registry<E> {
    type V = Seq<(KeyView, Seq<E>)>;

    closed spec fn view(&self) -> Seq<(KeyView, Seq<E>)> {
        Seq::new(self.keys@.len(), |a: int| (self.keys@[a]@, self.members@[a]@))
    }
}

impl<E> Registry<E> {
    pub closed spec fn wf(&self) -> bool {
        &&& self.keys@.len() == self.members@.len()
        &&& keys_distinct(self@)
    }

    /// An empty registry.
    pub fn new() -> (r: Self)
        ensures
            r.wf(),
            r@ == Seq::<(KeyView, Seq<E>)>::empty(),
    {
        let r = Registry { keys: Vec::new(), members: Vec::new() };
        assert(r@ =~= Seq::<(KeyView, Seq<E>)>::empty());
        r
    }

    /// The number of groups.
    pub fn len(&self) -> (r: usize)
        requires
            self.wf(),
        ensures
            r == self@.len(),
    {
        self.keys.len()
    }

    /// The key of group `a`.
    pub fn key(&self, a: usize) -> (r: &RegistrationKey)
        requires
            self.wf(),
            a < self@.len(),
        ensures
            r@ == self@[a as int].0,
    {
        &self.keys[a]
    }

    /// The members of group `a`, in the order they were added.
    pub fn members(&self, a: usize) -> (r: &Vec<E>)
        requires
            self.wf(),
            a < self@.len(),
        ensures
            r@ == self@[a as int].1,
    {
        &self.members[a]
    }

    /// Looks up the group keyed `key`, creating it at the end if there is
    /// none, and appends `e` to it.
    pub fn add(&mut self, key: RegistrationKey, e: E)
        requires
            old(self).wf(),
        ensures
            final(self).wf(),
            final(self)@ == add_to(old(self)@, key@, e),
    {
        let ghost g0 = self@;
        let mut a: usize = 0;
        let mut found = false;
        while a < self.keys.len()
            invariant_except_break
                !found,
            invariant
                self.wf(),
                self@ == g0,
                a <= self.keys@.len(),
                forall|b: int| 0 <= b < a ==> g0[b].0 != key@,
            ensures
                found ==> a < self.keys@.len() && g0[a as int].0 == key@,
                !found ==> !has_key(g0, key@),
            decreases self.keys@.len() - a,
        {
            if self.keys[a].same_as(&key) {
                found = true;
                break;
            }
            a = a + 1;
        }
        if found {
            let mut group = self.members.remove(a);
            group.push(e);
            self.members.insert(a, group);
            proof {
                let c = choose|c: int| 0 <= c < g0.len() && g0[c].0 == key@;
                assert(c == a);
                assert(self@ =~= g0.update(a as int, (key@, g0[a as int].1.push(e))));
            }
        } else {
            self.keys.push(key);
            let mut group = Vec::new();
            group.push(e);
            self.members.push(group);
            assert(self@ =~= g0.push((key@, seq![e])));
        }
    }
}

pub open spec fn entries_view<E>(s: Seq<(RegistrationKey, E)>) -> Seq<(KeyView, E)> {
    s.map_values(|p: (RegistrationKey, E)| (p.0@, p.1))
}

/// Groups `entries` by key: one group per distinct key, in the order of
/// the keys' first occurrences, each holding its entries in input order.
pub fn group_entries<E>(entries: Vec<(RegistrationKey, E)>) -> (r: Registry<E>)
    ensures
        r.wf(),
        r@ == group_all(entries_view(entries@)),
{
    let ghost all = entries_view(entries@);
    let mut rest = entries;
    let mut r: Registry<E> = Registry::new();
    let total = rest.len();
    let ghost n = rest@.len();
    let mut done: usize = 0;
    while rest.len() > 0
        invariant
            r.wf(),
            n == all.len(),
            n == total,
            done + rest@.len() == n,
            entries_view(rest@) == all.skip(done as int),
            r@ == group_all(all.take(done as int)),
        decreases rest@.len(),
    {
        let ghost before = rest@;
        let (k, e) = rest.remove(0);
        proof {
            assert(all[done as int] == entries_view(before)[0]) by {
                assert(entries_view(before)[0] == all.skip(done as int)[0]);
            }
        }
        r.add(k, e);
        proof {
            let t = all.take(done + 1);
            assert(t.drop_last() =~= all.take(done as int));
            assert(rest@ =~= before.subrange(1, before.len() as int));
            assert forall|j: int| 0 <= j < rest@.len() implies entries_view(rest@)[j] == all.skip(
                done + 1,
            )[j] by {
                assert(entries_view(before)[j + 1] == all.skip(done as int)[j + 1]);
            }
            assert(entries_view(rest@) =~= all.skip(done + 1));
        }
        done = done + 1;
    }
    assert(all.take(done as int) =~= all);
    r
}

} // verus!
