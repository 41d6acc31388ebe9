//! Values by a text, such as the name of a key.
use vstd::prelude::*;

use crate::text::same_str;

verus! {

/// Values by a text, the key; each key stands there once.
pub struct TextMap<V> {
    entries: Vec<(String, V)>,
}

/// The values by key.
pub open spec fn entries_view<V: View>(list: Seq<(String, V)>) -> Map<Seq<char>, V::V>
    decreases list.len(),
{
    if list.len() == 0 {
        Map::empty()
    } else {
        entries_view(list.drop_last()).insert(list.last().0@, list.last().1@)
    }
}

/// No key stands there twice.
pub open spec fn keys_differ<V>(list: Seq<(String, V)>) -> bool {
    forall|i: int, j: int|
        0 <= i < j < list.len() ==> (#[trigger] list[i]).0@ != (#[trigger] list[j]).0@
}

/// `i` is the place of a key.
pub open spec fn is_at<V>(list: Seq<(String, V)>, key: Seq<char>, i: int) -> bool {
    0 <= i < list.len() && list[i].0@ == key
}

/// A value is held for a key where it has a place, and it is the one at that place.
pub proof fn value_at<V: View>(list: Seq<(String, V)>, key: Seq<char>)
    requires
        keys_differ(list),
    ensures
        entries_view(list).contains_key(key) <==> exists|i: int| is_at(list, key, i),
        forall|i: int| #[trigger]
            is_at(list, key, i) ==> entries_view(list)[key] == list[i].1@,
    decreases list.len(),
{
    if list.len() > 0 {
        let front = list.drop_last();
        assert forall|i: int, j: int| 0 <= i < j < front.len() implies (#[trigger] front[i]).0@ != (
        #[trigger] front[j]).0@ by {
            assert(list[i].0@ != list[j].0@);
        }
        value_at(front, key);
        assert forall|i: int| 0 <= i < front.len() implies is_at(front, key, i) == is_at(
            list,
            key,
            i,
        ) by {}
        if exists|i: int| is_at(list, key, i) {
            let i = choose|i: int| is_at(list, key, i);
            if i < front.len() {
                assert(is_at(front, key, i));
            }
        }
        if exists|i: int| is_at(front, key, i) {
            let i = choose|i: int| is_at(front, key, i);
            assert(is_at(list, key, i));
        }
        if list.last().0@ == key {
            assert(is_at(list, key, list.len() - 1));
        }
        assert forall|i: int| #[trigger] is_at(list, key, i) implies entries_view(list)[key]
            == list[i].1@ by {
            if i < front.len() {
                assert(is_at(front, key, i));
                assert(list[i].0@ != list[list.len() - 1].0@);
            }
        }
    }
}

impl<V: View> View for TextMap<V> {
    type V = Map<Seq<char>, V::V>;

    open spec fn view(&self) -> Map<Seq<char>, V::V> {
        entries_view(self.list())
    }
}

impl<V: View> TextMap<V> {
    /// The keys and their values, one after the other.
    pub closed spec fn list(self) -> Seq<(String, V)> {
        self.entries@
    }

    /// Each key stands there once.
    pub open spec fn is_valid(self) -> bool {
        keys_differ(self.list())
    }

    /// The keys and their values, one after the other.
    pub fn entries(&self) -> (r: &Vec<(String, V)>)
        ensures
            r@ == self.list(),
    {
        &self.entries
    }

    /// A map without keys.
    pub fn new() -> (r: TextMap<V>)
        ensures
            r@ == Map::<Seq<char>, V::V>::empty(),
            r.is_valid(),
    {
        TextMap { entries: Vec::new() }
    }

    fn place(&self, key: &str) -> (r: Option<usize>)
        ensures
            match r {
                Some(i) => is_at(self.entries@, key@, i as int),
                None => forall|i: int| !is_at(self.entries@, key@, i),
            },
    {
        let mut i: usize = 0;
        while i < self.entries.len()
            invariant
                i <= self.entries@.len(),
                forall|k: int| 0 <= k < i ==> !is_at(self.entries@, key@, k),
            decreases self.entries@.len() - i,
        {
            if same_str(self.entries[i].0.as_str(), key) {
                return Some(i);
            }
            i += 1;
        }
        None
    }

    /// The value of a key.
    pub fn get(&self, key: &str) -> (r: Option<&V>)
        requires
            self.is_valid(),
        ensures
            match r {
                Some(value) => self@.contains_key(key@) && self@[key@] == value@,
                None => !self@.contains_key(key@),
            },
    {
        proof {
            value_at(self.entries@, key@);
        }
        match self.place(key) {
            Some(i) => Some(&self.entries[i].1),
            None => None,
        }
    }

    /// Sets the value of a key.
    pub fn insert(&mut self, key: String, value: V)
        requires
            old(self).is_valid(),
        ensures
            final(self)@ == old(self)@.insert(key@, value@),
            final(self).is_valid(),
    {
        let ghost before = self.entries@;
        let ghost name = key@;
        let ghost held = value@;
        match self.place(key.as_str()) {
            Some(i) => {
                self.entries.set(i, (key, value));
                let ghost after = self.entries@;
                proof {
                    assert(keys_differ(after)) by {
                        assert forall|a: int, b: int| 0 <= a < b < after.len() implies (
                        #[trigger] after[a]).0@ != (#[trigger] after[b]).0@ by {
                            assert(before[a].0@ != before[b].0@);
                        }
                    }
                    let target = entries_view(before).insert(name, held);
                    assert forall|k: Seq<char>|
                        #![trigger entries_view(after).dom().contains(k)]
                        #![trigger target.dom().contains(k)]
                        #![trigger entries_view(after)[k]]
                        #![trigger target[k]]
                        entries_view(after).dom().contains(k) == target.dom().contains(k) && (
                        target.dom().contains(k) ==> entries_view(after)[k] == target[k]) by {
                        value_at(before, k);
                        value_at(after, k);
                        assert forall|j: int| is_at(before, k, j) == is_at(after, k, j) by {}
                        if k == name {
                            assert(is_at(after, k, i as int));
                        } else if exists|j: int| is_at(before, k, j) {
                            let j = choose|j: int| is_at(before, k, j);
                            assert(is_at(after, k, j));
                        }
                    }
                    assert(entries_view(after) =~= target);
                }
            },
            None => {
                self.entries.push((key, value));
                let ghost after = self.entries@;
                proof {
                    assert(after.drop_last() =~= before);
                    assert forall|a: int, b: int| 0 <= a < b < after.len() implies (
                    #[trigger] after[a]).0@ != (#[trigger] after[b]).0@ by {
                        if b < before.len() {
                            assert(before[a].0@ != before[b].0@);
                        } else {
                            assert(!is_at(before, name, a));
                        }
                    }
                }
            },
        }
    }

    /// Removes a key and gives its value.
    pub fn remove(&mut self, key: &str) -> (r: Option<V>)
        requires
            old(self).is_valid(),
        ensures
            match r {
                Some(value) => old(self)@.contains_key(key@) && value@
                    == old(self)@[key@],
                None => !old(self)@.contains_key(key@),
            },
            final(self)@ == old(self)@.remove(key@),
            final(self).is_valid(),
    {
        let ghost before = self.entries@;
        proof {
            value_at(before, key@);
        }
        match self.place(key) {
            Some(i) => {
                let entry = self.entries.remove(i);
                let ghost after = self.entries@;
                proof {
                    assert forall|a: int, b: int| 0 <= a < b < after.len() implies (
                    #[trigger] after[a]).0@ != (#[trigger] after[b]).0@ by {
                        let a0 = if a < i { a } else { a + 1 };
                        let b0 = if b < i { b } else { b + 1 };
                        assert(before[a0].0@ != before[b0].0@);
                    }
                    let target = entries_view(before).remove(key@);
                    assert forall|k: Seq<char>|
                        #![trigger entries_view(after).dom().contains(k)]
                        #![trigger target.dom().contains(k)]
                        #![trigger entries_view(after)[k]]
                        #![trigger target[k]]
                        entries_view(after).dom().contains(k) == target.dom().contains(k) && (
                        target.dom().contains(k) ==> entries_view(after)[k] == target[k]) by {
                        value_at(before, k);
                        value_at(after, k);
                        if exists|j: int| is_at(after, k, j) {
                            let j = choose|j: int| is_at(after, k, j);
                            let j0 = if j < i { j } else { j + 1 };
                            assert(is_at(before, k, j0));
                            assert(before[i as int].0@ != k) by {
                                if i < j0 {
                                    assert(before[i as int].0@ != before[j0].0@);
                                } else {
                                    assert(before[j0].0@ != before[i as int].0@);
                                }
                            }
                        }
                        if k != key@ && exists|j: int| is_at(before, k, j) {
                            let j = choose|j: int| is_at(before, k, j);
                            let j1 = if j < i { j } else { j - 1 };
                            assert(is_at(after, k, j1));
                        }
                    }
                    assert(entries_view(after) =~= target);
                }
                Some(entry.1)
            },
            None => {
                assert(entries_view(before) =~= entries_view(before).remove(key@));
                None
            },
        }
    }
}

} // verus!
