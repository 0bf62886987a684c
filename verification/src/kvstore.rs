//! A store of named tables, each from a text key to a value.
//!
//! A namespace comes into being the first time it is asked for and stays; a
//! key that was never written reads as the default of the value type.

use vstd::prelude::*;
use vstd::string::StringExecFns;

verus! {

/// A value type that a store can hold: it names what an unwritten key reads
/// as.
pub trait Stored: Copy {
    /// What a key reads as before it is written.
    spec fn spec_default() -> Self;

    /// What a key reads as before it is written.
    fn default_value() -> (value: Self)
        ensures
            value == Self::spec_default(),
    ;
}

/// One written key of one namespace.
struct Record<V> {
    namespace: usize,
    key: String,
    value: V,
}

/// Named tables from text keys to values of type `V`.
pub struct KVStore<V> {
    names: Vec<String>,
    records: Vec<Record<V>>,
}

/// The table of namespace `h` that a sequence of records amounts to.
spec fn fold_table<V>(records: Seq<Record<V>>, h: int) -> Map<Seq<char>, V>
    decreases records.len(),
{
    if records.len() == 0 {
        Map::empty()
    } else {
        let rest = fold_table(records.drop_last(), h);
        let last = records.last();
        if last.namespace == h {
            rest.insert(last.key@, last.value)
        } else {
            rest
        }
    }
}

/// Whether record `i` is the one for `key` in namespace `h`.
spec fn is_record<V>(records: Seq<Record<V>>, i: int, h: int, key: Seq<char>) -> bool {
    0 <= i < records.len() && records[i].namespace == h && records[i].key@ == key
}

/// No key is written twice in one namespace.
spec fn distinct_records<V>(records: Seq<Record<V>>) -> bool {
    forall|i: int, j: int|
        0 <= i < j < records.len() ==> !(#[trigger] records[i].namespace
            == #[trigger] records[j].namespace && records[i].key@ == records[j].key@)
}

/// No namespace is named twice.
spec fn distinct_names(names: Seq<String>) -> bool {
    forall|i: int, j: int| 0 <= i < j < names.len() ==> #[trigger] names[i]@ != #[trigger] names[j]@
}

/// A table holds finitely many keys.
proof fn lemma_fold_finite<V>(records: Seq<Record<V>>, h: int)
    ensures
        fold_table(records, h).dom().finite(),
    decreases records.len(),
{
    if records.len() > 0 {
        lemma_fold_finite(records.drop_last(), h);
    }
}

/// A table holds a key exactly when a record for it exists.
proof fn lemma_fold_contains<V>(records: Seq<Record<V>>, h: int, key: Seq<char>)
    ensures
        fold_table(records, h).dom().contains(key) <==> exists|i: int|
            #[trigger] is_record(records, i, h, key),
    decreases records.len(),
{
    if records.len() > 0 {
        let front = records.drop_last();
        lemma_fold_contains(front, h, key);
        let n = records.len() - 1;
        if fold_table(records, h).dom().contains(key) {
            if records[n].namespace == h && records[n].key@ == key {
                assert(is_record(records, n, h, key));
            } else {
                let i = choose|i: int| #[trigger] is_record(front, i, h, key);
                assert(is_record(records, i, h, key));
            }
        }
        if exists|i: int| #[trigger] is_record(records, i, h, key) {
            let i = choose|i: int| #[trigger] is_record(records, i, h, key);
            if i < n {
                assert(is_record(front, i, h, key));
            }
        }
    }
}

/// Where no key is written twice, a table holds under a key the value of
/// its record.
proof fn lemma_fold_value<V>(records: Seq<Record<V>>, i: int, h: int)
    requires
        distinct_records(records),
        0 <= i < records.len(),
        records[i].namespace == h,
    ensures
        fold_table(records, h).dom().contains(records[i].key@),
        fold_table(records, h)[records[i].key@] == records[i].value,
    decreases records.len(),
{
    let n = records.len() - 1;
    if i < n {
        let front = records.drop_last();
        assert(distinct_records(front)) by {
            assert forall|a: int, b: int| 0 <= a < b < front.len() implies !(
            #[trigger] front[a].namespace == #[trigger] front[b].namespace && front[a].key@
                == front[b].key@) by {
                assert(front[a] == records[a] && front[b] == records[b]);
            }
        }
        lemma_fold_value(front, i, h);
        assert(front[i] == records[i]);
        assert(!(records[i].namespace == records[n].namespace && records[i].key@
            == records[n].key@));
    }
}

/// Replacing the record of a key by one for the same key writes the new
/// value to the table of its namespace and leaves the other tables alone.
proof fn lemma_fold_update<V>(records: Seq<Record<V>>, i: int, new: Record<V>, h: int)
    requires
        distinct_records(records),
        0 <= i < records.len(),
        new.namespace == records[i].namespace,
        new.key@ == records[i].key@,
    ensures
        distinct_records(records.update(i, new)),
        fold_table(records.update(i, new), h) == if h == new.namespace {
            fold_table(records, h).insert(new.key@, new.value)
        } else {
            fold_table(records, h)
        },
    decreases records.len(),
{
    let updated = records.update(i, new);
    assert(distinct_records(updated)) by {
        assert forall|a: int, b: int| 0 <= a < b < updated.len() implies !(
        #[trigger] updated[a].namespace == #[trigger] updated[b].namespace && updated[a].key@
            == updated[b].key@) by {
            assert(!(records[a].namespace == records[b].namespace && records[a].key@
                == records[b].key@));
        }
    }
    let n = records.len() - 1;
    let front = records.drop_last();
    if i == n {
        assert(updated.drop_last() =~= front);
        if h == new.namespace {
            assert(fold_table(updated, h) =~= fold_table(records, h).insert(new.key@, new.value));
        }
    } else {
        assert(distinct_records(front)) by {
            assert forall|a: int, b: int| 0 <= a < b < front.len() implies !(
            #[trigger] front[a].namespace == #[trigger] front[b].namespace && front[a].key@
                == front[b].key@) by {
                assert(front[a] == records[a] && front[b] == records[b]);
            }
        }
        assert(front[i] == records[i]);
        lemma_fold_update(front, i, new, h);
        assert(updated.drop_last() =~= front.update(i, new));
        assert(updated.last() == records.last());
        assert(!(records[i].namespace == records[n].namespace && records[i].key@
            == records[n].key@));
        if h == new.namespace {
            assert(fold_table(updated, h) =~= fold_table(records, h).insert(new.key@, new.value));
        }
    }
}

/// Adding a record writes its value to the table of its namespace and leaves
/// the other tables alone.
proof fn lemma_fold_push<V>(records: Seq<Record<V>>, new: Record<V>, h: int)
    ensures
        fold_table(records.push(new), h) == if h == new.namespace {
            fold_table(records, h).insert(new.key@, new.value)
        } else {
            fold_table(records, h)
        },
{
    assert(records.push(new).drop_last() =~= records);
}

/// A namespace without records has an empty table.
proof fn lemma_fold_none<V>(records: Seq<Record<V>>, h: int)
    requires
        forall|i: int| 0 <= i < records.len() ==> (#[trigger] records[i]).namespace != h,
    ensures
        fold_table(records, h) == Map::<Seq<char>, V>::empty(),
    decreases records.len(),
{
    if records.len() > 0 {
        let front = records.drop_last();
        assert forall|i: int| 0 <= i < front.len() implies (#[trigger] front[i]).namespace
            != h by {
            assert(front[i] == records[i]);
        }
        lemma_fold_none(front, h);
        assert(records.last() == records[records.len() - 1]);
    }
}

impl<V: Stored> KVStore<V> {
    /// Well-formedness: no namespace is named twice, no key is written twice
    /// in one namespace, and every record lies in a namespace that exists.
    pub closed spec fn wf(&self) -> bool {
        &&& distinct_names(self.names@)
        &&& distinct_records(self.records@)
        &&& forall|i: int|
            0 <= i < self.records.len() ==> (#[trigger] self.records[i]).namespace
                < self.names.len()
    }

    /// The names of the namespaces, in the order in which they were made. A
    /// namespace is known by its place in this sequence, its handle.
    pub closed spec fn names(&self) -> Seq<Seq<char>> {
        Seq::new(self.names.len() as nat, |i: int| self.names[i]@)
    }

    /// What is written in the namespace with handle `h`.
    pub closed spec fn table(&self, h: int) -> Map<Seq<char>, V> {
        fold_table(self.records@, h)
    }

    /// What `key` reads as in the namespace with handle `h`.
    pub open spec fn value_at(&self, h: int, key: Seq<char>) -> V {
        if self.table(h).dom().contains(key) {
            self.table(h)[key]
        } else {
            V::spec_default()
        }
    }

    /// The table of the namespace called `name`: empty where there is none.
    pub open spec fn table_named(&self, name: Seq<char>) -> Map<Seq<char>, V> {
        if self.names().contains(name) {
            self.table(self.names().index_of(name))
        } else {
            Map::empty()
        }
    }

    /// In a well-formed store no two namespaces share a name, every table is
    /// finite, and nothing is written outside the namespaces that exist.
    pub proof fn lemma_wf(&self)
        requires
            self.wf(),
        ensures
            self.names().no_duplicates(),
            forall|h: int| #[trigger] self.table(h).dom().finite(),
            forall|h: int|
                !(0 <= h < self.names().len()) ==> #[trigger] self.table(h) == Map::<
                    Seq<char>,
                    V,
                >::empty(),
    {
        assert forall|h: int| #[trigger] self.table(h).dom().finite() by {
            lemma_fold_finite(self.records@, h);
        }
        assert forall|h: int| !(0 <= h < self.names().len()) implies #[trigger] self.table(h)
            == Map::<Seq<char>, V>::empty() by {
            lemma_fold_none(self.records@, h);
        }
    }

    /// A store without namespaces.
    pub fn new() -> (store: Self)
        ensures
            store.wf(),
            store.names() == Seq::<Seq<char>>::empty(),
            forall|h: int| #[trigger] store.table(h) == Map::<Seq<char>, V>::empty(),
    {
        let store = KVStore { names: Vec::new(), records: Vec::new() };
        proof {
            assert(store.names() =~= Seq::<Seq<char>>::empty());
        }
        store
    }

    /// The handle of the namespace called `name`, which is made if it does
    /// not exist yet. Asking again gives the same handle.
    pub fn namespace(&mut self, name: &str) -> (h: usize)
        requires
            old(self).wf(),
        ensures
            final(self).wf(),
            h < final(self).names().len(),
            final(self).names()[h as int] == name@,
            old(self).names().contains(name@) ==> final(self).names() == old(self).names(),
            !old(self).names().contains(name@) ==> final(self).names() == old(self).names().push(
                name@,
            ),
            forall|g: int| #[trigger] final(self).table(g) == old(self).table(g),
    {
        let wanted = String::from_str(name);
        let mut i: usize = 0;
        while i < self.names.len()
            invariant
                i <= self.names.len(),
                wanted@ == name@,
                forall|j: int| 0 <= j < i ==> (#[trigger] self.names[j])@ != name@,
                *self == *old(self),
                self.wf(),
            decreases self.names.len() - i,
        {
            if self.names[i] == wanted {
                proof {
                    assert(self.names()[i as int] == name@);
                }
                return i;
            }
            i += 1;
        }
        proof {
            assert(!old(self).names().contains(name@)) by {
                if old(self).names().contains(name@) {
                    let j = choose|j: int|
                        0 <= j < old(self).names().len() && old(self).names()[j] == name@;
                    assert(self.names[j]@ == name@);
                }
            }
        }
        self.names.push(wanted);
        proof {
            assert(final(self).names() =~= old(self).names().push(name@));
        }
        i
    }

    /// The place of the record for `key` in the namespace with handle `h`.
    fn find(&self, h: usize, key: &String) -> (place: Option<usize>)
        ensures
            match place {
                Some(i) => is_record(self.records@, i as int, h as int, key@),
                None => forall|i: int| !#[trigger] is_record(self.records@, i, h as int, key@),
            },
    {
        let mut i: usize = 0;
        while i < self.records.len()
            invariant
                i <= self.records.len(),
                forall|j: int| 0 <= j < i ==> !#[trigger] is_record(
                    self.records@,
                    j,
                    h as int,
                    key@,
                ),
            decreases self.records.len() - i,
        {
            if self.records[i].namespace == h && self.records[i].key == *key {
                return Some(i);
            }
            i += 1;
        }
        None
    }

    /// What is written under `key` in the namespace with handle `h`, if
    /// anything is.
    pub fn lookup(&self, h: usize, key: &str) -> (found: Option<V>)
        requires
            self.wf(),
        ensures
            found == if self.table(h as int).dom().contains(key@) {
                Some(self.table(h as int)[key@])
            } else {
                None
            },
    {
        let wanted = String::from_str(key);
        proof {
            lemma_fold_contains(self.records@, h as int, key@);
        }
        match self.find(h, &wanted) {
            Some(i) => {
                proof {
                    lemma_fold_value(self.records@, i as int, h as int);
                }
                Some(self.records[i].value)
            },
            None => None,
        }
    }

    /// What `key` reads as in the namespace with handle `h`: what was
    /// written last, or the default of the value type.
    pub fn read(&self, h: usize, key: &str) -> (value: V)
        requires
            self.wf(),
        ensures
            value == self.value_at(h as int, key@),
    {
        match self.lookup(h, key) {
            Some(value) => value,
            None => V::default_value(),
        }
    }

    /// Writes `value` under `key` in the namespace with handle `h`, over
    /// whatever was there.
    pub fn write(&mut self, h: usize, key: &str, value: V)
        requires
            old(self).wf(),
            h < old(self).names().len(),
        ensures
            final(self).wf(),
            final(self).names() == old(self).names(),
            final(self).table(h as int) == old(self).table(h as int).insert(key@, value),
            forall|g: int| g != h ==> #[trigger] final(self).table(g) == old(self).table(g),
    {
        let owned = String::from_str(key);
        let place = self.find(h, &owned);
        let record = Record { namespace: h, key: owned, value };
        match place {
            Some(i) => {
                proof {
                    assert forall|g: int| true implies fold_table(
                        self.records@.update(i as int, record),
                        g,
                    ) == if g == h {
                        fold_table(self.records@, g).insert(key@, value)
                    } else {
                        fold_table(self.records@, g)
                    } by {
                        lemma_fold_update(self.records@, i as int, record, g);
                    }
                    lemma_fold_update(self.records@, i as int, record, h as int);
                }
                self.records.set(i, record);
            },
            None => {
                proof {
                    assert forall|g: int| true implies fold_table(self.records@.push(record), g)
                        == if g == h {
                        fold_table(self.records@, g).insert(key@, value)
                    } else {
                        fold_table(self.records@, g)
                    } by {
                        lemma_fold_push(self.records@, record, g);
                    }
                    let pushed = self.records@.push(record);
                    assert forall|a: int, b: int| 0 <= a < b < pushed.len() implies !(
                    #[trigger] pushed[a].namespace == #[trigger] pushed[b].namespace
                        && pushed[a].key@ == pushed[b].key@) by {
                        if b == pushed.len() - 1 {
                            assert(!is_record(self.records@, a, h as int, key@));
                        } else {
                            assert(!(self.records@[a].namespace == self.records@[b].namespace
                                && self.records@[a].key@ == self.records@[b].key@));
                        }
                    }
                }
                self.records.push(record);
            },
        }
        proof {
            assert(final(self).names() =~= old(self).names());
        }
    }

    /// What `key` reads as in the namespace called `namespace`, which is made
    /// if it does not exist yet.
    pub fn get_or_default(&mut self, namespace: &str, key: &str) -> (value: V)
        requires
            old(self).wf(),
        ensures
            final(self).wf(),
            value == if old(self).table_named(namespace@).dom().contains(key@) {
                old(self).table_named(namespace@)[key@]
            } else {
                V::spec_default()
            },
            old(self).names().contains(namespace@) ==> final(self).names() == old(self).names(),
            !old(self).names().contains(namespace@) ==> final(self).names() == old(
                self,
            ).names().push(namespace@),
            forall|g: int| #[trigger] final(self).table(g) == old(self).table(g),
    {
        let h = self.namespace(namespace);
        proof {
            old(self).lemma_wf();
            self.lemma_wf();
            if old(self).names().contains(namespace@) {
                let j = old(self).names().index_of(namespace@);
                assert(self.names()[j] == self.names()[h as int]);
            }
        }
        self.read(h, key)
    }

    /// Writes `value` under `key` in the namespace called `namespace`, which
    /// is made if it does not exist yet.
    pub fn set(&mut self, namespace: &str, key: &str, value: V)
        requires
            old(self).wf(),
        ensures
            final(self).wf(),
            old(self).names().contains(namespace@) ==> final(self).names() == old(self).names(),
            !old(self).names().contains(namespace@) ==> final(self).names() == old(
                self,
            ).names().push(namespace@),
            final(self).table_named(namespace@) == old(self).table_named(namespace@).insert(
                key@,
                value,
            ),
            forall|other: Seq<char>|
                other != namespace@ ==> #[trigger] final(self).table_named(other) == old(
                    self,
                ).table_named(other),
    {
        let h = self.namespace(namespace);
        let ghost made = *self;
        proof {
            old(self).lemma_wf();
            made.lemma_wf();
            if old(self).names().contains(namespace@) {
                let j = old(self).names().index_of(namespace@);
                assert(made.names()[j] == made.names()[h as int]);
            }
        }
        self.write(h, key, value);
        proof {
            self.lemma_wf();
            let names = self.names();
            assert(names[h as int] == namespace@);
            assert(names.contains(namespace@));
            let j = names.index_of(namespace@);
            assert(names[j] == names[h as int]);
            assert forall|other: Seq<char>| other != namespace@ implies #[trigger] self.table_named(
                other,
            ) == old(self).table_named(other) by {
                if names.contains(other) {
                    let g = names.index_of(other);
                    assert(g != h);
                    if old(self).names().contains(other) {
                        let g0 = old(self).names().index_of(other);
                        assert(names[g0] == other);
                        assert(g0 == g);
                    } else {
                        assert(old(self).names().push(namespace@)[g] == other);
                        assert(false);
                    }
                } else {
                    if old(self).names().contains(other) {
                        let g0 = old(self).names().index_of(other);
                        assert(names[g0] == other);
                    }
                }
            }
        }
    }
}

} // verus!
