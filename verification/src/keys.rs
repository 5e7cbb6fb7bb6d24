//! Keys of process tables.

use crate::assoc::{AssocMap, KeySet, MapKey};
use crate::cells::{CellDefault, CellValue};
use vstd::prelude::*;

verus! {

impl MapKey for u16 {
    type Model = u16;

    open spec fn model(&self) -> u16 {
        *self
    }

    fn same_key(&self, other: &Self) -> (same: bool) {
        *self == *other
    }

    fn copy_key(&self) -> (copy: Self) {
        *self
    }
}

impl MapKey for i16 {
    type Model = i16;

    open spec fn model(&self) -> i16 {
        *self
    }

    fn same_key(&self, other: &Self) -> (same: bool) {
        *self == *other
    }

    fn copy_key(&self) -> (copy: Self) {
        *self
    }
}

impl MapKey for bool {
    type Model = bool;

    open spec fn model(&self) -> bool {
        *self
    }

    fn same_key(&self, other: &Self) -> (same: bool) {
        *self == *other
    }

    fn copy_key(&self) -> (copy: Self) {
        *self
    }
}

impl MapKey for String {
    type Model = Seq<char>;

    open spec fn model(&self) -> Seq<char> {
        self@
    }

    fn same_key(&self, other: &Self) -> (same: bool) {
        *self == *other
    }

    fn copy_key(&self) -> (copy: Self) {
        self.clone()
    }
}

/// A four-character code, such as a resource type.
#[derive(Debug, Clone, Copy, PartialEq, Eq, Structural)]
pub struct FourCharCode(pub u8, pub u8, pub u8, pub u8);

impl MapKey for FourCharCode {
    type Model = FourCharCode;

    open spec fn model(&self) -> FourCharCode {
        *self
    }

    fn same_key(&self, other: &Self) -> (same: bool) {
        *self == *other
    }

    fn copy_key(&self) -> (copy: Self) {
        *self
    }
}

impl<A: MapKey, B: MapKey> MapKey for (A, B) {
    type Model = (A::Model, B::Model);

    open spec fn model(&self) -> (A::Model, B::Model) {
        (self.0.model(), self.1.model())
    }

    fn same_key(&self, other: &Self) -> (same: bool) {
        self.0.same_key(&other.0) && self.1.same_key(&other.1)
    }

    fn copy_key(&self) -> (copy: Self) {
        (self.0.copy_key(), self.1.copy_key())
    }
}

impl<A: MapKey, B: MapKey, C: MapKey> MapKey for (A, B, C) {
    type Model = (A::Model, B::Model, C::Model);

    open spec fn model(&self) -> (A::Model, B::Model, C::Model) {
        (self.0.model(), self.1.model(), self.2.model())
    }

    fn same_key(&self, other: &Self) -> (same: bool) {
        self.0.same_key(&other.0) && self.1.same_key(&other.1) && self.2.same_key(&other.2)
    }

    fn copy_key(&self) -> (copy: Self) {
        (self.0.copy_key(), self.1.copy_key(), self.2.copy_key())
    }
}

/// A table entry that can be copied out.
pub open spec fn same_entries<M, V: CellValue>(a: Map<M, V>, b: Map<M, V>) -> bool {
    &&& a.dom() == b.dom()
    &&& forall|key: M| #[trigger] a.dom().contains(key) ==> a[key].same(&b[key])
}

impl<K: MapKey, V: CellValue> CellDefault for AssocMap<K, V> {
    open spec fn is_default(&self) -> bool {
        self@ == Map::<K::Model, V>::empty()
    }

    fn default_value() -> (value: Self) {
        AssocMap::new()
    }
}

impl<K: MapKey, V: CellValue> CellValue for AssocMap<K, V> {
    open spec fn same(&self, other: &Self) -> bool {
        same_entries(self@, other@)
    }

    fn copy_value(&self) -> (copy: Self) {
        let mut copy: AssocMap<K, V> = AssocMap::new();
        let count: usize = self.count();
        let mut i: usize = 0;
        while i < count
            invariant
                i <= count,
                count == self.key_list().len(),
                self.key_list().no_duplicates(),
                forall|j: int|
                    0 <= j < self.key_list().len() ==> self@.dom().contains(
                        #[trigger] self.key_list()[j],
                    ),
                copy@.dom() == self.key_list().take(i as int).to_set(),
                forall|key: K::Model| #[trigger]
                    copy@.dom().contains(key) ==> self@.dom().contains(key) && self@[key].same(
                        &copy@[key],
                    ),
            decreases count - i,
        {
            let (key, value) = self.entry_at(i);
            let ghost before = copy@;
            copy.insert(key.copy_key(), value.copy_value());
            proof {
                let done = self.key_list().take(i as int);
                let next = self.key_list().take(i + 1);
                assert(next =~= done.push(self.key_list()[i as int]));
                assert(next.to_set() =~= done.to_set().insert(self.key_list()[i as int])) by {
                    assert forall|k: K::Model| next.contains(k) implies done.to_set().insert(
                        self.key_list()[i as int],
                    ).contains(k) by {
                        let p = choose|p: int| 0 <= p < next.len() && next[p] == k;
                        if p < i {
                            assert(done[p] == k);
                        }
                    }
                    assert forall|k: K::Model| done.to_set().insert(
                        self.key_list()[i as int],
                    ).contains(k) implies next.contains(k) by {
                        if k == self.key_list()[i as int] {
                            assert(next[i as int] == k);
                        } else {
                            let p = choose|p: int| 0 <= p < done.len() && done[p] == k;
                            assert(next[p] == k);
                        }
                    }
                }
                assert(copy@.dom() =~= before.dom().insert(key.model()));
            }
            i += 1;
        }
        proof {
            assert(self.key_list().take(count as int) =~= self.key_list());
            assert(copy@.dom() =~= self@.dom()) by {
                assert forall|key: K::Model| copy@.dom().contains(key) implies self@.dom().contains(
                    key,
                ) by {}
                assert forall|key: K::Model| self@.dom().contains(key) implies copy@.dom().contains(
                    key,
                ) by {
                    assert(self.key_list().contains(key));
                }
            }
        }
        copy
    }
}

impl<K: MapKey> CellDefault for KeySet<K> {
    open spec fn is_default(&self) -> bool {
        self@ == Set::<K::Model>::empty()
    }

    fn default_value() -> (value: Self) {
        KeySet::new()
    }
}

impl<K: MapKey> CellValue for KeySet<K> {
    open spec fn same(&self, other: &Self) -> bool {
        self@ == other@
    }

    fn copy_value(&self) -> (copy: Self) {
        self.copy_set()
    }
}

impl CellDefault for u32 {
    open spec fn is_default(&self) -> bool {
        *self == 0
    }

    fn default_value() -> (value: Self) {
        0
    }
}

impl CellValue for u32 {
    open spec fn same(&self, other: &Self) -> bool {
        *self == *other
    }

    fn copy_value(&self) -> (copy: Self) {
        *self
    }
}

impl CellDefault for i16 {
    open spec fn is_default(&self) -> bool {
        *self == 0
    }

    fn default_value() -> (value: Self) {
        0
    }
}

impl CellValue for i16 {
    open spec fn same(&self, other: &Self) -> bool {
        *self == *other
    }

    fn copy_value(&self) -> (copy: Self) {
        *self
    }
}

impl CellDefault for u8 {
    open spec fn is_default(&self) -> bool {
        *self == 0
    }

    fn default_value() -> (value: Self) {
        0
    }
}

impl CellValue for u8 {
    open spec fn same(&self, other: &Self) -> bool {
        *self == *other
    }

    fn copy_value(&self) -> (copy: Self) {
        *self
    }
}

impl CellDefault for u16 {
    open spec fn is_default(&self) -> bool {
        *self == 0
    }

    fn default_value() -> (value: Self) {
        0
    }
}

impl CellValue for u16 {
    open spec fn same(&self, other: &Self) -> bool {
        *self == *other
    }

    fn copy_value(&self) -> (copy: Self) {
        *self
    }
}

impl CellDefault for String {
    open spec fn is_default(&self) -> bool {
        self@ == Seq::<char>::empty()
    }

    fn default_value() -> (value: Self) {
        String::new()
    }
}

impl CellValue for String {
    open spec fn same(&self, other: &Self) -> bool {
        *self == *other
    }

    fn copy_value(&self) -> (copy: Self) {
        self.clone()
    }
}

impl<A: CellValue, B: CellValue> CellDefault for (A, B) {
    open spec fn is_default(&self) -> bool {
        self.0.is_default() && self.1.is_default()
    }

    fn default_value() -> (value: Self) {
        (A::default_value(), B::default_value())
    }
}

impl<A: CellValue, B: CellValue> CellValue for (A, B) {
    open spec fn same(&self, other: &Self) -> bool {
        self.0.same(&other.0) && self.1.same(&other.1)
    }

    fn copy_value(&self) -> (copy: Self) {
        (self.0.copy_value(), self.1.copy_value())
    }
}

impl<A: CellValue, B: CellValue, C: CellValue> CellDefault for (A, B, C) {
    open spec fn is_default(&self) -> bool {
        self.0.is_default() && self.1.is_default() && self.2.is_default()
    }

    fn default_value() -> (value: Self) {
        (A::default_value(), B::default_value(), C::default_value())
    }
}

impl<A: CellValue, B: CellValue, C: CellValue> CellValue for (A, B, C) {
    open spec fn same(&self, other: &Self) -> bool {
        self.0.same(&other.0) && self.1.same(&other.1) && self.2.same(&other.2)
    }

    fn copy_value(&self) -> (copy: Self) {
        (self.0.copy_value(), self.1.copy_value(), self.2.copy_value())
    }
}

impl CellDefault for FourCharCode {
    open spec fn is_default(&self) -> bool {
        *self == FourCharCode(0, 0, 0, 0)
    }

    fn default_value() -> (value: Self) {
        FourCharCode(0, 0, 0, 0)
    }
}

impl CellValue for FourCharCode {
    open spec fn same(&self, other: &Self) -> bool {
        *self == *other
    }

    fn copy_value(&self) -> (copy: Self) {
        *self
    }
}

/// Two lists of the same length hold the same values place by place.
pub open spec fn same_list<T: CellValue>(a: Seq<T>, b: Seq<T>) -> bool {
    &&& a.len() == b.len()
    &&& forall|i: int| 0 <= i < a.len() ==> (#[trigger] a[i]).same(&b[i])
}

impl<T: CellValue> CellDefault for Vec<T> {
    open spec fn is_default(&self) -> bool {
        self@.len() == 0
    }

    fn default_value() -> (value: Self) {
        Vec::new()
    }
}

impl<T: CellValue> CellValue for Vec<T> {
    open spec fn same(&self, other: &Self) -> bool {
        same_list(self@, other@)
    }

    fn copy_value(&self) -> (copy: Self) {
        let mut copy: Vec<T> = Vec::new();
        let mut i: usize = 0;
        while i < self.len()
            invariant
                i <= self@.len(),
                copy@.len() == i,
                forall|j: int| 0 <= j < i ==> (#[trigger] self@[j]).same(&copy@[j]),
            decreases self@.len() - i,
        {
            copy.push(self[i].copy_value());
            i += 1;
        }
        copy
    }
}

impl<T: CellValue> CellDefault for Option<T> {
    open spec fn is_default(&self) -> bool {
        *self is None
    }

    fn default_value() -> (value: Self) {
        None
    }
}

impl<T: CellValue> CellValue for Option<T> {
    open spec fn same(&self, other: &Self) -> bool {
        match (self, other) {
            (Some(a), Some(b)) => a.same(b),
            (None, None) => true,
            _ => false,
        }
    }

    fn copy_value(&self) -> (copy: Self) {
        match self {
            Some(value) => Some(value.copy_value()),
            None => None,
        }
    }
}

} // verus!
