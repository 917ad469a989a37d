//! Lists of entities that are found and removed by their id.
use vstd::prelude::*;
use vstd::string::*;

use crate::gratuity::Gratuity;
use crate::items::Item;
use crate::service_charge::ServiceCharge;
use crate::tax::Tax;
use crate::tax_group::TaxGroup;

verus! {

/// An entity with an integer id.
pub trait Keyed {
    spec fn key(&self) -> i64;

    fn id(&self) -> (r: i64)
        ensures
            r == self.key(),
    ;
}

impl Keyed for Tax {
    open spec fn key(&self) -> i64 {
        self.id
    }

    fn id(&self) -> (r: i64) {
        self.id
    }
}

impl Keyed for TaxGroup {
    open spec fn key(&self) -> i64 {
        self.id
    }

    fn id(&self) -> (r: i64) {
        self.id
    }
}

impl Keyed for Item {
    open spec fn key(&self) -> i64 {
        self.id
    }

    fn id(&self) -> (r: i64) {
        self.id
    }
}

impl Keyed for Gratuity {
    open spec fn key(&self) -> i64 {
        self.id
    }

    fn id(&self) -> (r: i64) {
        self.id
    }
}

impl Keyed for ServiceCharge {
    open spec fn key(&self) -> i64 {
        self.id
    }

    fn id(&self) -> (r: i64) {
        self.id
    }
}

/// The position of the first entity at or after `i` whose id is `id`.
pub open spec fn index_from<T: Keyed>(list: Seq<T>, id: i64, i: int) -> Option<int>
    decreases list.len() - i,
{
    if i < 0 || i >= list.len() {
        None
    } else if list[i].key() == id {
        Some(i)
    } else {
        index_from(list, id, i + 1)
    }
}

/// The position of the first entity whose id is `id`.
pub open spec fn first_index<T: Keyed>(list: Seq<T>, id: i64) -> Option<int> {
    index_from(list, id, 0)
}

/// The entities whose id is not `id`, in their order.
pub open spec fn without_id<T: Keyed>(list: Seq<T>, id: i64) -> Seq<T> {
    list.filter(|t: T| t.key() != id)
}

proof fn lemma_index_from_range<T: Keyed>(list: Seq<T>, id: i64, i: int)
    ensures
        match index_from(list, id, i) {
            Some(k) => 0 <= k < list.len() && list[k].key() == id,
            None => true,
        },
    decreases list.len() - i,
{
    if 0 <= i < list.len() && list[i].key() != id {
        lemma_index_from_range(list, id, i + 1);
    }
}

/// Finds the first entity whose id is `id`.
pub fn position_of<T: Keyed>(list: &Vec<T>, id: i64) -> (r: Option<usize>)
    ensures
        match r {
            Some(i) => first_index(list@, id) == Some(i as int) && i < list@.len() && list@[i as int].key() == id,
            None => first_index(list@, id) is None,
        },
{
    proof {
        lemma_index_from_range(list@, id, 0);
    }
    let mut i: usize = 0;
    while i < list.len()
        invariant
            0 <= i <= list@.len(),
            index_from(list@, id, 0) == index_from(list@, id, i as int),
        decreases list@.len() - i,
    {
        if list[i].id() == id {
            return Some(i);
        }
        i = i + 1;
    }
    None
}

/// Removes every entity whose id is `id`, keeping the others in order.
pub fn remove_with_id<T: Keyed>(list: &mut Vec<T>, id: i64)
    ensures
        final(list)@ == without_id(old(list)@, id),
{
    let ghost first = old(list)@;
    let ghost mut j: int = 0;
    let mut i: usize = 0;
    proof {
        reveal(Seq::filter);
        assert(first.take(0) =~= Seq::<T>::empty());
        assert(without_id(first.take(0), id) =~= Seq::<T>::empty());
        assert(list@ =~= without_id(first.take(0), id) + first.skip(0));
    }
    while i < list.len()
        invariant
            first == old(list)@,
            0 <= j <= first.len(),
            i == without_id(first.take(j), id).len(),
            list@ == without_id(first.take(j), id) + first.skip(j),
        decreases list@.len() - i,
    {
        proof {
            reveal(Seq::filter);
            assert(first.take(j + 1).drop_last() =~= first.take(j));
            assert(list@[i as int] == first[j]);
        }
        if list[i].id() == id {
            list.remove(i);
            proof {
                assert(list@ =~= without_id(first.take(j + 1), id) + first.skip(j + 1));
            }
        } else {
            proof {
                assert(list@ =~= without_id(first.take(j + 1), id) + first.skip(j + 1));
            }
            i = i + 1;
        }
        proof {
            j = j + 1;
        }
    }
    proof {
        assert(first.skip(j).len() == 0);
        assert(first.take(j) =~= first);
        assert(list@ =~= without_id(first, id));
    }
}

/// Whether the field name `field` is `name`.
pub fn field_is(field: &String, name: &str) -> (r: bool)
    ensures
        r == (field@ == name@),
{
    field.eq(&String::from_str(name))
}

} // verus!
