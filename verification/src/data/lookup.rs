//! Finding a content record by its identifier: the first record of a list
//! that carries it.

use crate::data::types::{
    views, Dialog, DialogView, Enemy, EnemyView, GameMap, GameMapView, Item, ItemView, Quest,
    QuestView, Shop, ShopView,
};
use crate::text::str_eq;
use vstd::prelude::*;

verus! {

/// Whether `i` is the first position of `flags` that holds `true`.
pub open spec fn is_first_true(flags: Seq<bool>, i: int) -> bool {
    &&& 0 <= i < flags.len()
    &&& flags[i]
    &&& forall|j: int| 0 <= j < i ==> !flags[j]
}

/// The first position of `flags` that holds `true`, if any.
pub open spec fn first_true(flags: Seq<bool>) -> Option<int> {
    if exists|i: int| is_first_true(flags, i) {
        Some(choose|i: int| is_first_true(flags, i))
    } else {
        None
    }
}

/// A first position is the one `first_true` names.
pub proof fn lemma_first_true_some(flags: Seq<bool>, i: int)
    requires
        is_first_true(flags, i),
    ensures
        first_true(flags) == Some(i),
{
    let c = choose|c: int| is_first_true(flags, c);
    assert(is_first_true(flags, c));
    assert(c == i) by {
        if c < i {
            assert(!flags[c]);
        } else if i < c {
            assert(!flags[i]);
        }
    }
}

/// Where no position holds `true`, `first_true` names none.
pub proof fn lemma_first_true_none(flags: Seq<bool>)
    requires
        forall|j: int| 0 <= j < flags.len() ==> !flags[j],
    ensures
        first_true(flags) is None,
{
}

/// What `first_true` names is a first position; where it names none, no
/// position holds `true`.
pub proof fn lemma_first_true(flags: Seq<bool>)
    ensures
        match first_true(flags) {
            Some(i) => is_first_true(flags, i),
            None => forall|j: int| 0 <= j < flags.len() ==> !flags[j],
        },
{
    if first_true(flags) is None {
        assert forall|j: int| 0 <= j < flags.len() implies !flags[j] by {
            if flags[j] {
                lemma_some_first(flags, j);
            }
        }
    }
}

/// Where some position holds `true`, there is a first one.
proof fn lemma_some_first(flags: Seq<bool>, j: int)
    requires
        0 <= j < flags.len(),
        flags[j],
    ensures
        exists|i: int| is_first_true(flags, i),
    decreases j,
{
    if forall|k: int| 0 <= k < j ==> !flags[k] {
        assert(is_first_true(flags, j));
    } else {
        let k = choose|k: int| 0 <= k < j && flags[k];
        lemma_some_first(flags, k);
    }
}

/// The first position of `ids` that holds `id`, if any.
pub open spec fn index_of(ids: Seq<Seq<char>>, id: Seq<char>) -> Option<int> {
    first_true(Seq::new(ids.len(), |i: int| ids[i] == id))
}

/// A record that is known by an identifier.
pub trait Keyed: View + Sized {
    /// The identifier of a record, read off its model.
    spec fn key_of(v: Self::V) -> Seq<char>;

    /// The record's identifier.
    fn key(&self) -> (k: &str)
        ensures
            k@ == Self::key_of(self@),
    ;
}

impl Keyed for Item {
    open spec fn key_of(v: ItemView) -> Seq<char> {
        v.id
    }

    fn key(&self) -> (k: &str) {
        self.id.as_str()
    }
}

impl Keyed for Enemy {
    open spec fn key_of(v: EnemyView) -> Seq<char> {
        v.id
    }

    fn key(&self) -> (k: &str) {
        self.id.as_str()
    }
}

impl Keyed for GameMap {
    open spec fn key_of(v: GameMapView) -> Seq<char> {
        v.id
    }

    fn key(&self) -> (k: &str) {
        self.id.as_str()
    }
}

impl Keyed for Dialog {
    open spec fn key_of(v: DialogView) -> Seq<char> {
        v.id
    }

    fn key(&self) -> (k: &str) {
        self.id.as_str()
    }
}

impl Keyed for Quest {
    open spec fn key_of(v: QuestView) -> Seq<char> {
        v.id
    }

    fn key(&self) -> (k: &str) {
        self.id.as_str()
    }
}

impl Keyed for Shop {
    open spec fn key_of(v: ShopView) -> Seq<char> {
        v.id
    }

    fn key(&self) -> (k: &str) {
        self.id.as_str()
    }
}

/// The identifiers of a list of record models, in order.
pub open spec fn keys<T: Keyed>(s: Seq<T::V>) -> Seq<Seq<char>> {
    Seq::new(s.len(), |i: int| T::key_of(s[i]))
}

/// The position of the first record of `s` known by `id`, if any.
pub open spec fn position<T: Keyed>(s: Seq<T::V>, id: Seq<char>) -> Option<int> {
    index_of(keys::<T>(s), id)
}

/// The first record of `s` known by `id`, if any.
pub open spec fn lookup<T: Keyed>(s: Seq<T::V>, id: Seq<char>) -> Option<T::V> {
    match position::<T>(s, id) {
        Some(i) => Some(s[i]),
        None => None,
    }
}

/// The position of the first record of `list` known by `id`, if any.
pub fn find<T: Keyed>(list: &[T], id: &str) -> (r: Option<usize>)
    ensures
        match r {
            Some(i) => i < list.len() && position::<T>(views(list@), id@) == Some(i as int),
            None => position::<T>(views(list@), id@) is None,
        },
{
    let ghost ids = keys::<T>(views(list@));
    let ghost flags = Seq::new(ids.len(), |i: int| ids[i] == id@);
    let mut i: usize = 0;
    while i < list.len()
        invariant
            i <= list.len(),
            ids == keys::<T>(views(list@)),
            flags == Seq::new(ids.len(), |i: int| ids[i] == id@),
            forall|j: int| 0 <= j < i ==> !flags[j],
        decreases list.len() - i,
    {
        if str_eq(list[i].key(), id) {
            proof {
                lemma_first_true_some(flags, i as int);
            }
            return Some(i);
        }
        i += 1;
    }
    proof {
        lemma_first_true_none(flags);
    }
    None
}

} // verus!
