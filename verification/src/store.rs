//! The ephemeral store as the core sees it: one named hash from opaque
//! string keys to opaque string values, held in memory in insertion order.

use vstd::prelude::*;

verus! {

/// One field of a hash: its key and its value, as texts.
pub type Field = (Seq<char>, Seq<char>);

/// Whether some field of `fields` has the key `key`.
pub open spec fn has_key(fields: Seq<Field>, key: Seq<char>) -> bool {
    exists|i: int| 0 <= i < fields.len() && (#[trigger] fields[i]).0 == key
}

/// No key occurs in two fields.
pub open spec fn unique_keys(fields: Seq<Field>) -> bool {
    forall|i: int, j: int|
        0 <= i < j < fields.len() ==> (#[trigger] fields[i]).0 != (#[trigger] fields[j]).0
}

/// `fields` with every field dropped whose key is in `doomed`; the others
/// keep their order.
pub open spec fn without(fields: Seq<Field>, doomed: Set<Seq<char>>) -> Seq<Field>
    decreases fields.len(),
{
    if fields.len() == 0 {
        Seq::empty()
    } else if doomed.contains(fields.last().0) {
        without(fields.drop_last(), doomed)
    } else {
        without(fields.drop_last(), doomed).push(fields.last())
    }
}

/// The keys of `keys`, as a set of texts.
pub open spec fn key_set(keys: Seq<String>) -> Set<Seq<char>> {
    Set::new(|k: Seq<char>| exists|i: int| 0 <= i < keys.len() && (#[trigger] keys[i])@ == k)
}

/// Every field of `without(fields, doomed)` is a field of `fields` whose key
/// is not doomed, and every such field of `fields` is kept.
pub proof fn lemma_without_fields(fields: Seq<Field>, doomed: Set<Seq<char>>)
    ensures
        without(fields, doomed).len() <= fields.len(),
        forall|f: Field| #[trigger]
            without(fields, doomed).contains(f) <==> fields.contains(f) && !doomed.contains(f.0),
        unique_keys(fields) ==> unique_keys(without(fields, doomed)),
        forall|k: Seq<char>| #[trigger]
            has_key(without(fields, doomed), k) <==> has_key(fields, k) && !doomed.contains(k),
    decreases fields.len(),
{
    let kept = without(fields, doomed);
    if fields.len() == 0 {
        assert forall|k: Seq<char>| #[trigger] has_key(kept, k) <==> has_key(fields, k)
            && !doomed.contains(k) by {}
    } else {
        let front = fields.drop_last();
        let last = fields.last();
        lemma_without_fields(front, doomed);
        let kept_front = without(front, doomed);
        assert forall|f: Field| #[trigger] kept.contains(f) <==> fields.contains(f)
            && !doomed.contains(f.0) by {
            if kept.contains(f) {
                let i = choose|i: int| 0 <= i < kept.len() && kept[i] == f;
                if i < kept_front.len() {
                    assert(kept_front[i] == f);
                    assert(kept_front.contains(f));
                    let j = choose|j: int| 0 <= j < front.len() && front[j] == f;
                    assert(fields[j] == f);
                } else {
                    assert(f == last);
                    assert(fields[fields.len() - 1] == f);
                }
            }
            if fields.contains(f) && !doomed.contains(f.0) {
                let j = choose|j: int| 0 <= j < fields.len() && fields[j] == f;
                if j < front.len() {
                    assert(front[j] == f);
                    assert(front.contains(f));
                    assert(kept_front.contains(f));
                    let i = choose|i: int| 0 <= i < kept_front.len() && kept_front[i] == f;
                    assert(kept[i] == f);
                } else {
                    assert(kept[kept.len() - 1] == f);
                }
            }
        }
        assert forall|k: Seq<char>| #[trigger] has_key(kept, k) <==> has_key(fields, k)
            && !doomed.contains(k) by {
            if has_key(kept, k) {
                let i = choose|i: int| 0 <= i < kept.len() && (#[trigger] kept[i]).0 == k;
                assert(kept.contains(kept[i]));
                let j = choose|j: int| 0 <= j < fields.len() && fields[j] == kept[i];
                assert(fields[j].0 == k);
            }
            if has_key(fields, k) && !doomed.contains(k) {
                let j = choose|j: int| 0 <= j < fields.len() && (#[trigger] fields[j]).0 == k;
                assert(fields.contains(fields[j]));
                assert(kept.contains(fields[j]));
                let i = choose|i: int| 0 <= i < kept.len() && kept[i] == fields[j];
                assert(kept[i].0 == k);
            }
        }
        if unique_keys(fields) {
            assert(unique_keys(front)) by {
                assert forall|i: int, j: int| 0 <= i < j < front.len() implies (#[trigger] front[i]).0
                    != (#[trigger] front[j]).0 by {
                    assert(fields[i].0 != fields[j].0);
                }
            }
            if !doomed.contains(last.0) {
                assert forall|i: int, j: int| 0 <= i < j < kept.len() implies (#[trigger] kept[i]).0
                    != (#[trigger] kept[j]).0 by {
                    if j == kept.len() - 1 {
                        assert(kept_front[i] == kept[i]);
                        assert(kept_front.contains(kept[i]));
                        let a = choose|a: int| 0 <= a < front.len() && front[a] == kept[i];
                        assert(fields[a].0 != fields[fields.len() - 1].0);
                    } else {
                        assert(kept_front[i] == kept[i] && kept_front[j] == kept[j]);
                    }
                }
            }
        }
    }
}

/// Dropping keys that no field has changes nothing.
pub proof fn lemma_without_agree(fields: Seq<Field>, a: Set<Seq<char>>, b: Set<Seq<char>>)
    requires
        forall|i: int| 0 <= i < fields.len() ==> a.contains((#[trigger] fields[i]).0) == b.contains(fields[i].0),
    ensures
        without(fields, a) == without(fields, b),
    decreases fields.len(),
{
    if fields.len() > 0 {
        let front = fields.drop_last();
        assert forall|i: int| 0 <= i < front.len() implies a.contains((#[trigger] front[i]).0)
            == b.contains(front[i].0) by {
            assert(front[i] == fields[i]);
        }
        lemma_without_agree(front, a, b);
        assert(a.contains(fields[fields.len() - 1].0) == b.contains(fields[fields.len() - 1].0));
    }
}

/// Dropping no key at all changes nothing.
pub proof fn lemma_without_nothing(fields: Seq<Field>, doomed: Set<Seq<char>>)
    requires
        forall|i: int| 0 <= i < fields.len() ==> !doomed.contains((#[trigger] fields[i]).0),
    ensures
        without(fields, doomed) == fields,
    decreases fields.len(),
{
    if fields.len() > 0 {
        let front = fields.drop_last();
        assert forall|i: int| 0 <= i < front.len() implies !doomed.contains((#[trigger] front[i]).0) by {
            assert(front[i] == fields[i]);
        }
        lemma_without_nothing(front, doomed);
        assert(!doomed.contains(fields[fields.len() - 1].0));
        assert(front.push(fields.last()) =~= fields);
    } else {
        assert(without(fields, doomed) =~= fields);
    }
}

/// Dropping `doomed`, then `more`, is dropping both at once.
pub proof fn lemma_without_twice(fields: Seq<Field>, doomed: Set<Seq<char>>, more: Set<Seq<char>>)
    ensures
        without(without(fields, doomed), more) == without(fields, doomed.union(more)),
    decreases fields.len(),
{
    if fields.len() > 0 {
        let front = fields.drop_last();
        let last = fields.last();
        lemma_without_twice(front, doomed, more);
        if !doomed.contains(last.0) {
            let kept = without(front, doomed).push(last);
            assert(kept.drop_last() =~= without(front, doomed));
            assert(kept.last() == last);
        }
    }
}

/// In a hash without repeated keys, dropping distinct keys that are all
/// present shortens it by exactly their number.
pub proof fn lemma_without_len(fields: Seq<Field>, keys: Seq<Seq<char>>, doomed: Set<Seq<char>>)
    requires
        unique_keys(fields),
        keys.no_duplicates(),
        forall|i: int| 0 <= i < keys.len() ==> has_key(fields, #[trigger] keys[i]),
        forall|k: Seq<char>| doomed.contains(k) <==> keys.contains(k),
    ensures
        without(fields, doomed).len() == fields.len() - keys.len(),
    decreases fields.len(),
{
    if fields.len() == 0 {
        if keys.len() > 0 {
            assert(has_key(fields, keys[0]));
        }
    } else {
        let front = fields.drop_last();
        let last = fields.last();
        assert(unique_keys(front)) by {
            assert forall|i: int, j: int| 0 <= i < j < front.len() implies (#[trigger] front[i]).0
                != (#[trigger] front[j]).0 by {
                assert(fields[i].0 != fields[j].0);
            }
        }
        if doomed.contains(last.0) {
            let p = choose|p: int| 0 <= p < keys.len() && keys[p] == last.0;
            let rest = keys.remove(p);
            let fewer = doomed.remove(last.0);
            assert(rest.no_duplicates()) by {
                assert forall|i: int, j: int| 0 <= i < rest.len() && 0 <= j < rest.len() && i
                    != j implies rest[i] != rest[j] by {
                    let a = if i < p { i } else { i + 1 };
                    let b = if j < p { j } else { j + 1 };
                    assert(rest[i] == keys[a] && rest[j] == keys[b]);
                }
            }
            assert forall|i: int| 0 <= i < rest.len() implies has_key(front, #[trigger] rest[i]) by {
                let a = if i < p { i } else { i + 1 };
                assert(rest[i] == keys[a]);
                assert(keys[a] != keys[p]);
                assert(has_key(fields, keys[a]));
                let f = choose|f: int| 0 <= f < fields.len() && (#[trigger] fields[f]).0 == keys[a];
                assert(front[f].0 == keys[a]);
            }
            assert forall|k: Seq<char>| fewer.contains(k) <==> rest.contains(k) by {
                if fewer.contains(k) {
                    let a = choose|a: int| 0 <= a < keys.len() && keys[a] == k;
                    let i = if a < p { a } else { a - 1 };
                    assert(rest[i] == k);
                }
                if rest.contains(k) {
                    let i = choose|i: int| 0 <= i < rest.len() && rest[i] == k;
                    let a = if i < p { i } else { i + 1 };
                    assert(keys[a] == k);
                    assert(keys[a] != keys[p]);
                }
            }
            assert forall|i: int| 0 <= i < front.len() implies doomed.contains((#[trigger] front[i]).0)
                == fewer.contains(front[i].0) by {
                assert(fields[i].0 != fields[fields.len() - 1].0);
            }
            lemma_without_agree(front, doomed, fewer);
            lemma_without_len(front, rest, fewer);
        } else {
            assert forall|i: int| 0 <= i < keys.len() implies has_key(front, #[trigger] keys[i]) by {
                assert(has_key(fields, keys[i]));
                let f = choose|f: int| 0 <= f < fields.len() && (#[trigger] fields[f]).0 == keys[i];
                assert(keys.contains(keys[i]));
                assert(f != fields.len() - 1);
                assert(front[f].0 == keys[i]);
            }
            lemma_without_len(front, keys, doomed);
        }
    }
}

/// The texts of a vector of fields.
pub open spec fn fields_of(held: Seq<(String, String)>) -> Seq<Field> {
    Seq::new(held.len(), |i: int| (held[i].0@, held[i].1@))
}

/// A hash held in memory. Its value is the sequence of its fields in the
/// order in which they were inserted.
pub struct MemoryHash {
    fields: Vec<(String, String)>,
}

impl View for MemoryHash {
    type V = Seq<Field>;

    closed spec fn view(&self) -> Seq<Field> {
        fields_of(self.fields@)
    }
}

impl MemoryHash {
    /// No key is held twice.
    pub open spec fn wf(&self) -> bool {
        unique_keys(self@)
    }

    pub fn new() -> (hash: Self)
        ensures
            hash@ == Seq::<Field>::empty(),
            hash.wf(),
    {
        let hash = MemoryHash { fields: Vec::new() };
        assert(hash@ =~= Seq::<Field>::empty());
        hash
    }

    /// How many fields the hash holds.
    pub fn len(&self) -> (n: usize)
        ensures
            n == self@.len(),
    {
        self.fields.len()
    }

    fn position(&self, key: &String) -> (found: Option<usize>)
        ensures
            match found {
                Some(i) => i < self@.len() && self@[i as int].0 == key@,
                None => !has_key(self@, key@),
            },
    {
        let mut i: usize = 0;
        while i < self.fields.len()
            invariant
                i <= self.fields@.len(),
                forall|j: int| 0 <= j < i ==> (#[trigger] self@[j]).0 != key@,
            decreases self.fields@.len() - i,
        {
            if self.fields[i].0 == *key {
                return Some(i);
            }
            i = i + 1;
        }
        None
    }

    /// The value stored under `key`, if there is one.
    pub fn get_one(&self, key: &str) -> (value: Option<String>)
        ensures
            match value {
                Some(v) => self@.contains((key@, v@)),
                None => !has_key(self@, key@),
            },
    {
        let wanted = key.to_owned();
        match self.position(&wanted) {
            Some(i) => {
                let v = self.fields[i].1.clone();
                assert(self@[i as int] == (key@, v@));
                Some(v)
            },
            None => None,
        }
    }

    /// Stores `value` under `key` unless the key is taken; says whether it
    /// stored.
    pub fn insert_if_absent(&mut self, key: &str, value: &str) -> (stored: bool)
        requires
            old(self).wf(),
        ensures
            final(self).wf(),
            stored == !has_key(old(self)@, key@),
            final(self)@ == if stored {
                old(self)@.push((key@, value@))
            } else {
                old(self)@
            },
    {
        let wanted = key.to_owned();
        match self.position(&wanted) {
            Some(_) => false,
            None => {
                self.fields.push((wanted, value.to_owned()));
                assert(self@ =~= old(self)@.push((key@, value@)));
                assert(unique_keys(self@)) by {
                    assert forall|i: int, j: int| 0 <= i < j < self@.len() implies (#[trigger] self@[i]).0
                        != (#[trigger] self@[j]).0 by {
                        if j == self@.len() - 1 {
                            assert(old(self)@[i].0 != key@);
                        } else {
                            assert(old(self)@[i].0 != old(self)@[j].0);
                        }
                    }
                }
                true
            },
        }
    }

    /// Removes every field whose key is among `keys`; returns how many
    /// fields that removed.
    pub fn bulk_delete(&mut self, keys: &Vec<String>) -> (count: usize)
        requires
            old(self).wf(),
        ensures
            final(self).wf(),
            final(self)@ == without(old(self)@, key_set(keys@)),
            count == old(self)@.len() - final(self)@.len(),
    {
        let ghost doomed = key_set(keys@);
        let ghost before = self@;
        let mut held: Vec<(String, String)> = Vec::new();
        core::mem::swap(&mut held, &mut self.fields);
        let ghost moved = held@;
        let total = held.len();
        let mut kept: Vec<(String, String)> = Vec::new();
        assert(before.take(0) =~= Seq::<Field>::empty());
        for field in it: held
            invariant
                it.seq() == moved,
                fields_of(moved) == before,
                doomed == key_set(keys@),
                fields_of(kept@) == without(before.take(it.index() as int), doomed),
        {
            let ghost i = it.index() as int;
            assert(before[i] == (field.0@, field.1@));
            let mut hit = false;
            let mut j: usize = 0;
            while j < keys.len() && !hit
                invariant
                    j <= keys@.len(),
                    hit ==> doomed.contains(field.0@),
                    !hit ==> forall|a: int| 0 <= a < j ==> (#[trigger] keys@[a])@ != field.0@,
                    doomed == key_set(keys@),
                decreases keys@.len() - j + if hit { 0int } else { 1int },
            {
                if keys[j] == field.0 {
                    hit = true;
                }
                j = j + 1;
            }
            assert(before.take(i + 1).drop_last() =~= before.take(i));
            assert(before.take(i + 1).last() == before[i]);
            if !hit {
                let ghost so_far = fields_of(kept@);
                kept.push(field);
                assert(fields_of(kept@) =~= so_far.push(before[i]));
            }
        }
        assert(before.take(before.len() as int) =~= before);
        proof {
            lemma_without_fields(before, doomed);
        }
        let count = total - kept.len();
        self.fields = kept;
        count
    }

    /// Removes the field stored under `key`; says whether there was one.
    pub fn delete_one(&mut self, key: &str) -> (existed: bool)
        requires
            old(self).wf(),
        ensures
            final(self).wf(),
            existed == has_key(old(self)@, key@),
            final(self)@ == without(old(self)@, set![key@]),
    {
        let mut keys: Vec<String> = Vec::new();
        keys.push(key.to_owned());
        let count = self.bulk_delete(&keys);
        proof {
            let doomed = key_set(keys@);
            assert(doomed =~= set![key@]) by {
                assert(keys@[0]@ == key@);
            }
            if has_key(old(self)@, key@) {
                let one = seq![key@];
                assert(one[0] == key@);
                lemma_without_len(old(self)@, one, doomed);
            } else {
                lemma_without_nothing(old(self)@, doomed);
            }
        }
        count == 1
    }

    /// Every field of the hash, in order.
    pub fn scan_all(&self) -> (found: Vec<(String, String)>)
        ensures
            fields_of(found@) == self@,
    {
        let mut found: Vec<(String, String)> = Vec::new();
        let mut i: usize = 0;
        while i < self.fields.len()
            invariant
                i <= self.fields@.len(),
                fields_of(found@) == self@.take(i as int),
            decreases self.fields@.len() - i,
        {
            let ghost before = fields_of(found@);
            found.push((self.fields[i].0.clone(), self.fields[i].1.clone()));
            assert(fields_of(found@) =~= before.push(self@[i as int]));
            assert(self@.take(i + 1) =~= self@.take(i as int).push(self@[i as int]));
            i = i + 1;
        }
        assert(self@.take(i as int) =~= self@);
        found
    }
}

/// Once a key has been dropped, no field is stored under it, whatever the
/// value.
pub proof fn lemma_dropped_key_is_gone(fields: Seq<Field>, key: Seq<char>)
    ensures
        !has_key(without(fields, set![key]), key),
        forall|value: Seq<char>| !(#[trigger] without(fields, set![key]).contains((key, value))),
{
    let left = without(fields, set![key]);
    lemma_without_fields(fields, set![key]);
    assert(set![key].contains(key));
    assert forall|value: Seq<char>| !(#[trigger] left.contains((key, value))) by {
        if left.contains((key, value)) {
            let i = choose|i: int| 0 <= i < left.len() && left[i] == (key, value);
            assert(left[i].0 == key);
            assert(has_key(left, key));
        }
    }
}

/// In a hash without repeated keys, the field under a key is the only one
/// under that key.
pub proof fn lemma_one_value_per_key(fields: Seq<Field>, key: Seq<char>, a: Seq<char>, b: Seq<char>)
    requires
        unique_keys(fields),
        fields.contains((key, a)),
        fields.contains((key, b)),
    ensures
        a == b,
{
    let i = choose|i: int| 0 <= i < fields.len() && fields[i] == (key, a);
    let j = choose|j: int| 0 <= j < fields.len() && fields[j] == (key, b);
    if i < j {
        assert(fields[i].0 != fields[j].0);
    } else if j < i {
        assert(fields[j].0 != fields[i].0);
    }
}

} // verus!
