//! The presence registry: which user has a live connection on which gateway
//! instance.
//!
//! A user may be present on several instances, and may have several records
//! on one. A process that starts clears the records kept under its own
//! instance identifier before it accepts connections, which removes what a
//! crashed process with the same identifier left behind.

use crate::text::contains_str;
use crate::text::str_eq;
use vstd::prelude::*;

verus! {

/// One record: a user and the instance that holds a connection of theirs.
pub struct PresenceRecord {
    /// The user.
    pub user: String,
    /// The instance.
    pub instance: String,
}

/// A record as a value: the user's id and the instance's identifier.
pub type Presence = (Seq<char>, Seq<char>);

/// The records of a sequence, as values.
pub open spec fn record_values(records: Seq<PresenceRecord>) -> Seq<Presence> {
    Seq::new(records.len(), |i: int| (records[i].user@, records[i].instance@))
}

/// The records that are left when those of `instance` are removed.
pub open spec fn without_instance(records: Seq<Presence>, instance: Seq<char>) -> Seq<Presence>
    decreases records.len(),
{
    if records.len() == 0 {
        Seq::empty()
    } else if records.last().1 == instance {
        without_instance(records.drop_last(), instance)
    } else {
        without_instance(records.drop_last(), instance).push(records.last())
    }
}

/// The records that are left when the oldest that equals `record` is taken
/// out; all of them where none equals it.
pub open spec fn without_one(records: Seq<Presence>, record: Presence) -> Seq<Presence> {
    match records.index_of_first(record) {
        Some(at) => records.remove(at),
        None => records,
    }
}

/// The instances on which `user` has a record.
pub open spec fn located(records: Seq<Presence>, user: Seq<char>) -> Set<Seq<char>> {
    Set::new(|instance: Seq<char>| records.contains((user, instance)))
}

/// Whether one of `items` is the text `t`.
pub open spec fn names_text(items: Seq<String>, t: Seq<char>) -> bool {
    exists|k: int| 0 <= k < items.len() && (#[trigger] items[k])@ == t
}

/// The registry of presence records.
pub struct PresenceRegistry {
    instance: String,
    records: Vec<PresenceRecord>,
}

impl View for PresenceRegistry {
    type V = Seq<Presence>;

    closed spec fn view(&self) -> Seq<Presence> {
        record_values(self.records@)
    }
}

impl PresenceRegistry {
    /// The identifier of the instance that this process runs as.
    pub closed spec fn own_instance(&self) -> Seq<char> {
        self.instance@
    }

    /// An empty registry for the process that runs as `instance`.
    pub fn new(instance: String) -> (r: PresenceRegistry)
        ensures
            r@ == Seq::<Presence>::empty(),
            r.own_instance() == instance@,
    {
        let r = PresenceRegistry { instance, records: Vec::new() };
        proof {
            assert(r@ =~= Seq::<Presence>::empty());
        }
        r
    }

    /// The identifier of the instance that this process runs as.
    pub fn instance(&self) -> (r: &str)
        ensures
            r@ == self.own_instance(),
    {
        self.instance.as_str()
    }

    /// The number of records.
    pub fn len(&self) -> (r: usize)
        ensures
            r == self@.len(),
    {
        self.records.len()
    }

    /// Records that `user` has a connection on `instance`.
    pub fn register(&mut self, user: &str, instance: &str)
        ensures
            final(self)@ == old(self)@.push((user@, instance@)),
            final(self).own_instance() == old(self).own_instance(),
    {
        let user = user.to_owned();
        let instance = instance.to_owned();
        self.records.push(PresenceRecord { user, instance });
        proof {
            assert(self@ =~= old(self)@.push((user@, instance@)));
        }
    }

    /// Removes one record of `user` on `instance`, the oldest; says whether
    /// there was one.
    pub fn unregister(&mut self, user: &str, instance: &str) -> (r: bool)
        ensures
            final(self).own_instance() == old(self).own_instance(),
            r == old(self)@.contains((user@, instance@)),
            final(self)@ == without_one(old(self)@, (user@, instance@)),
    {
        let ghost rec = (user@, instance@);
        let mut i: usize = 0;
        while i < self.records.len()
            invariant
                *self == *old(self),
                rec == (user@, instance@),
                i <= self.records@.len(),
                forall|k: int| 0 <= k < i ==> (#[trigger] self@[k]) != rec,
            decreases self.records@.len() - i,
        {
            if str_eq(self.records[i].user.as_str(), user) && str_eq(
                self.records[i].instance.as_str(),
                instance,
            ) {
                proof {
                    assert(self@[i as int] == rec);
                    assert(self@.contains(rec));
                    self@.index_of_first_ensures(rec);
                    let at = self@.index_of_first(rec).unwrap();
                    assert(at == i) by {
                        if at < i {
                            assert(self@[at] != rec);
                        }
                        if at > i {
                            assert(self@[i as int] != rec);
                        }
                    }
                }
                self.records.remove(i);
                proof {
                    assert(self@ =~= old(self)@.remove(i as int));
                }
                return true;
            }
            i = i + 1;
        }
        proof {
            if self@.contains(rec) {
                let k = choose|k: int| 0 <= k < self@.len() && self@[k] == rec;
                assert(false);
            }
            self@.index_of_first_ensures(rec);
        }
        false
    }

    /// Records that `user` has a connection on this process's own instance.
    pub fn register_here(&mut self, user: &str)
        ensures
            final(self)@ == old(self)@.push((user@, old(self).own_instance())),
            final(self).own_instance() == old(self).own_instance(),
    {
        let instance = self.instance.clone();
        self.register(user, instance.as_str());
    }

    /// Removes one record of `user` on this process's own instance, the
    /// oldest; says whether there was one.
    pub fn unregister_here(&mut self, user: &str) -> (r: bool)
        ensures
            final(self).own_instance() == old(self).own_instance(),
            final(self)@ == without_one(old(self)@, (user@, old(self).own_instance())),
            r == old(self)@.contains((user@, old(self).own_instance())),
    {
        let instance = self.instance.clone();
        self.unregister(user, instance.as_str())
    }

    /// Removes every record of one instance: of the one named or, where none
    /// is named, of this process's own. Says how many records went.
    pub fn clear(&mut self, instance: Option<&str>) -> (r: usize)
        ensures
            final(self).own_instance() == old(self).own_instance(),
            final(self)@ == without_instance(
                old(self)@,
                match instance {
                    Some(i) => i@,
                    None => old(self).own_instance(),
                },
            ),
            r == old(self)@.len() - final(self)@.len(),
    {
        let ghost target = match instance {
            Some(i) => i@,
            None => self.own_instance(),
        };
        let ghost start = self@;
        let mut removed: usize = 0;
        let mut i: usize = 0;
        assert(self.records@.len() == self.records.len());
        while i < self.records.len()
            invariant
                self.instance == old(self).instance,
                target == match instance {
                    Some(i) => i@,
                    None => old(self).own_instance(),
                },
                start == old(self)@,
                i <= self.records@.len(),
                without_instance(self@, target) == without_instance(start, target),
                forall|k: int| 0 <= k < i ==> (#[trigger] self@[k]).1 != target,
                removed + self@.len() == start.len(),
                start.len() <= usize::MAX,
            decreases self.records@.len() - i,
        {
            let matches = match instance {
                Some(name) => str_eq(self.records[i].instance.as_str(), name),
                None => str_eq(self.records[i].instance.as_str(), self.instance.as_str()),
            };
            if matches {
                let ghost before = self@;
                self.records.remove(i);
                removed = removed + 1;
                proof {
                    assert(self@ =~= before.remove(i as int));
                    lemma_without_instance_skips(before, i as int, target);
                }
            } else {
                i = i + 1;
            }
        }
        proof {
            lemma_without_instance_keeps(self@, target);
        }
        removed
    }

    /// The instances on which `user` has a connection, each once. An empty
    /// answer means that nothing is to be delivered.
    pub fn locate(&self, user: &str) -> (r: Vec<String>)
        ensures
            forall|i: int, j: int| 0 <= i < j < r@.len() ==> (#[trigger] r@[i])@ != (#[trigger] r@[j])@,
            forall|instance: Seq<char>| #[trigger]
                names_text(r@, instance) <==> located(self@, user@).contains(instance),
    {
        let mut out: Vec<String> = Vec::new();
        let mut i: usize = 0;
        while i < self.records.len()
            invariant
                i <= self.records@.len(),
                forall|a: int, b: int|
                    0 <= a < b < out@.len() ==> (#[trigger] out@[a])@ != (#[trigger] out@[b])@,
                forall|instance: Seq<char>| #[trigger]
                    names_text(out@, instance) <==> self@.take(i as int).contains((user@, instance)),
            decreases self.records@.len() - i,
        {
            let ghost before = out@;
            let ghost seen = self@.take(i as int);
            let ghost next = self@.take(i as int + 1);
            proof {
                assert(next =~= seen.push(self@[i as int]));
            }
            let mut added = false;
            if str_eq(self.records[i].user.as_str(), user) {
                if !contains_str(&out, self.records[i].instance.as_str()) {
                    out.push(self.records[i].instance.clone());
                    added = true;
                }
            }
            proof {
                let rec = self@[i as int];
                assert forall|instance: Seq<char>| #[trigger]
                    names_text(out@, instance) <==> next.contains((user@, instance)) by {
                    if names_text(out@, instance) {
                        let k = choose|k: int| 0 <= k < out@.len() && (#[trigger] out@[k])@ == instance;
                        if k < before.len() {
                            assert(out@[k] == before[k]);
                            assert(names_text(before, instance));
                            let j = choose|j: int|
                                0 <= j < seen.len() && seen[j] == (user@, instance);
                            assert(next[j] == (user@, instance));
                        } else {
                            assert(next[i as int] == (user@, instance));
                        }
                    }
                    if next.contains((user@, instance)) {
                        let j = choose|j: int| 0 <= j < next.len() && next[j] == (user@, instance);
                        if j < i {
                            assert(seen[j] == (user@, instance));
                            assert(seen.contains((user@, instance)));
                            assert(names_text(before, instance));
                            let k = choose|k: int|
                                0 <= k < before.len() && (#[trigger] before[k])@ == instance;
                            assert(out@[k]@ == instance);
                        } else {
                            assert(rec == (user@, instance));
                            if added {
                                assert(out@[before.len() as int]@ == instance);
                            } else {
                                let k = choose|k: int|
                                    0 <= k < before.len() && (#[trigger] before[k])@ == instance;
                                assert(out@[k]@ == instance);
                            }
                        }
                    }
                }
            }
            i = i + 1;
        }
        proof {
            assert(self@.take(i as int) =~= self@);
        }
        out
    }

    /// Whether `user` has a connection on any instance.
    pub fn is_online(&self, user: &str) -> (r: bool)
        ensures
            r == exists|instance: Seq<char>| #[trigger] self@.contains((user@, instance)),
    {
        let mut i: usize = 0;
        while i < self.records.len()
            invariant
                i <= self.records@.len(),
                forall|k: int| 0 <= k < i ==> (#[trigger] self@[k]).0 != user@,
            decreases self.records@.len() - i,
        {
            if str_eq(self.records[i].user.as_str(), user) {
                proof {
                    let instance = self@[i as int].1;
                    assert(self@[i as int] == (user@, instance));
                    assert(self@.contains((user@, instance)));
                }
                return true;
            }
            i = i + 1;
        }
        proof {
            if exists|instance: Seq<char>| #[trigger] self@.contains((user@, instance)) {
                let instance = choose|instance: Seq<char>| #[trigger]
                    self@.contains((user@, instance));
                let k = choose|k: int| 0 <= k < self@.len() && self@[k] == (user@, instance);
                assert(self@[k].0 == user@);
                assert(false);
            }
        }
        false
    }
}

/// Taking out a record of `instance` does not change what is left when the
/// records of `instance` are removed.
pub proof fn lemma_without_instance_skips(records: Seq<Presence>, at: int, instance: Seq<char>)
    requires
        0 <= at < records.len(),
        records[at].1 == instance,
    ensures
        without_instance(records.remove(at), instance) == without_instance(records, instance),
    decreases records.len(),
{
    if at == records.len() - 1 {
        assert(records.remove(at) =~= records.drop_last());
    } else {
        assert(records.remove(at).drop_last() =~= records.drop_last().remove(at));
        assert(records.remove(at).last() == records.last());
        lemma_without_instance_skips(records.drop_last(), at, instance);
    }
}

/// Where no record is of `instance`, removing the records of `instance`
/// leaves all of them.
pub proof fn lemma_without_instance_keeps(records: Seq<Presence>, instance: Seq<char>)
    requires
        forall|k: int| 0 <= k < records.len() ==> (#[trigger] records[k]).1 != instance,
    ensures
        without_instance(records, instance) == records,
    decreases records.len(),
{
    if records.len() > 0 {
        lemma_without_instance_keeps(records.drop_last(), instance);
        assert(records.drop_last().push(records.last()) =~= records);
    }
}

/// What is left after the records of `instance` are removed: every record of
/// another instance, and none of `instance`.
pub proof fn lemma_without_instance_contains(
    records: Seq<Presence>,
    instance: Seq<char>,
    record: Presence,
)
    ensures
        without_instance(records, instance).contains(record) <==> (records.contains(record)
            && record.1 != instance),
    decreases records.len(),
{
    let left = without_instance(records, instance);
    if records.len() == 0 {
        assert(!records.contains(record));
        assert(!left.contains(record));
    } else {
        let rest = records.drop_last();
        lemma_without_instance_contains(rest, instance, record);
        let inner = without_instance(rest, instance);
        if records.contains(record) {
            let k = choose|k: int| 0 <= k < records.len() && records[k] == record;
            if k < records.len() - 1 {
                assert(rest[k] == record);
                assert(rest.contains(record));
            }
        }
        if rest.contains(record) {
            let k = choose|k: int| 0 <= k < rest.len() && rest[k] == record;
            assert(records[k] == record);
        }
        if records.last().1 == instance {
            assert(left == inner);
        } else {
            assert(left == inner.push(records.last()));
            if inner.contains(record) {
                let k = choose|k: int| 0 <= k < inner.len() && inner[k] == record;
                assert(left[k] == record);
            }
            if left.contains(record) {
                let k = choose|k: int| 0 <= k < left.len() && left[k] == record;
                if k < inner.len() {
                    assert(inner[k] == record);
                } else {
                    assert(records[records.len() - 1] == record);
                }
            } else if record == records.last() {
                assert(left[inner.len() as int] == record);
            }
        }
    }
}

/// After the records of an instance are cleared, no user is located on
/// that instance, and every user is located on the other instances as
/// before.
pub proof fn lemma_clear_purges_instance(
    records: Seq<Presence>,
    instance: Seq<char>,
    user: Seq<char>,
    other: Seq<char>,
)
    ensures
        !located(without_instance(records, instance), user).contains(instance),
        other != instance ==> located(without_instance(records, instance), user).contains(other)
            == located(records, user).contains(other),
{
    lemma_without_instance_contains(records, instance, (user, instance));
    lemma_without_instance_contains(records, instance, (user, other));
}

/// A user whose records are all on one instance is located nowhere once the
/// records of that instance are cleared.
pub proof fn lemma_clear_leaves_user_nowhere(
    records: Seq<Presence>,
    instance: Seq<char>,
    user: Seq<char>,
)
    requires
        forall|k: int|
            0 <= k < records.len() && (#[trigger] records[k]).0 == user ==> records[k].1 == instance,
    ensures
        located(without_instance(records, instance), user) == Set::<Seq<char>>::empty(),
{
    assert forall|j: Seq<char>| !located(without_instance(records, instance), user).contains(j) by {
        lemma_without_instance_contains(records, instance, (user, j));
        if records.contains((user, j)) {
            let k = choose|k: int| 0 <= k < records.len() && records[k] == (user, j);
            assert(records[k].0 == user);
        }
    }
    assert(located(without_instance(records, instance), user) =~= Set::<Seq<char>>::empty());
}

} // verus!
