//! Lists of token ids, as the owner registry keeps them.
//!
//! An owner's tokens are an unordered set kept as a sequence in which no id
//! occurs twice. The sequence is a vector of the host environment. A token
//! leaves a list by value: the list is scanned for the id and spliced where it
//! is found.
//!
//! A host vector hands out its items one by one and converts each as it is
//! read, so a vector of ids may hold items that are no ids. A list is readable
//! when every item of it is an id; the lists made here are.

use vstd::prelude::*;

verus! {

/// `soroban_sdk::Env`, the host environment in which vectors are made. It is
/// carried through and never looked into.
#[verifier::external_type_specification]
#[verifier::external_body]
pub struct ExHostEnv(soroban_sdk::Env);

/// `soroban_sdk::Vec`, a vector that lives in the host environment. What one
/// holds is known through `cells_of` alone.
#[verifier::external_type_specification]
#[verifier::external_body]
#[verifier::reject_recursive_types(T)]
pub struct ExHostVec<T>(soroban_sdk::Vec<T>);

/// What a host vector of ids holds, item by item: the id, where the item is
/// one.
pub uninterp spec fn cells_of(list: soroban_sdk::Vec<u64>) -> Seq<Option<u64>>;

/// Every item of the list is an id.
pub open spec fn list_readable(list: soroban_sdk::Vec<u64>) -> bool {
    forall|i: int| 0 <= i < cells_of(list).len() ==> (#[trigger] cells_of(list)[i]) is Some
}

/// The ids of a list, in its order.
pub open spec fn list_ids(list: soroban_sdk::Vec<u64>) -> Seq<u64> {
    Seq::new(cells_of(list).len(), |i: int| cells_of(list)[i]->Some_0)
}

/// `soroban_sdk::Vec::new`: an empty vector in the given environment.
#[verifier::external_body]
pub(crate) fn list_new(env: &soroban_sdk::Env) -> (list: soroban_sdk::Vec<u64>)
    ensures
        cells_of(list) == Seq::<Option<u64>>::empty(),
{
    soroban_sdk::Vec::new(env)
}

/// `soroban_sdk::Vec::len`: the number of items, which fits in 32 bits.
#[verifier::external_body]
pub(crate) fn list_len(list: &soroban_sdk::Vec<u64>) -> (len: u32)
    ensures
        len == cells_of(*list).len(),
{
    list.len()
}

/// `soroban_sdk::Vec::try_get`: nothing beyond the end, and else the item at
/// the position where it converts to an id. An item that does not convert is
/// answered as no id.
#[verifier::external_body]
pub(crate) fn list_get(list: &soroban_sdk::Vec<u64>, at: u32) -> (cell: Option<u64>)
    ensures
        at < cells_of(*list).len() ==> cell == cells_of(*list)[at as int],
        at >= cells_of(*list).len() ==> cell is None,
{
    match list.try_get(at) {
        Ok(found) => found,
        Err(_) => None,
    }
}

/// `soroban_sdk::Vec::remove`: the item at a position within the vector
/// leaves, and those behind it move up.
#[verifier::external_body]
pub(crate) fn list_remove(list: &mut soroban_sdk::Vec<u64>, at: u32)
    requires
        at < cells_of(*old(list)).len(),
    ensures
        cells_of(*final(list)) == cells_of(*old(list)).remove(at as int),
{
    list.remove(at);
}

/// `soroban_sdk::Vec::push_back`: the length grows by one and the item stands
/// in the last position. The vector must have room for one more.
#[verifier::external_body]
pub(crate) fn list_push_back(list: &mut soroban_sdk::Vec<u64>, id: u64)
    requires
        cells_of(*old(list)).len() < u32::MAX,
    ensures
        cells_of(*final(list)) == cells_of(*old(list)).push(Some(id)),
{
    list.push_back(id);
}

/// An empty list in the given environment.
pub fn new_list(env: &soroban_sdk::Env) -> (list: soroban_sdk::Vec<u64>)
    ensures
        list_readable(list),
        list_ids(list) == Seq::<u64>::empty(),
{
    let list = list_new(env);
    assert(list_ids(list) =~= Seq::<u64>::empty());
    list
}

/// Puts `token_id` at the end of the list.
pub fn push_token_id(list: &mut soroban_sdk::Vec<u64>, token_id: u64)
    requires
        list_readable(*old(list)),
        list_ids(*old(list)).len() < u32::MAX,
    ensures
        list_readable(*final(list)),
        list_ids(*final(list)) == list_ids(*old(list)).push(token_id),
{
    list_push_back(list, token_id);
    proof {
        let before = cells_of(*old(list));
        let after = cells_of(*list);
        assert forall|i: int| 0 <= i < after.len() implies (#[trigger] after[i]) is Some by {
            if i < before.len() {
                assert(after[i] == before[i]);
            }
        }
        assert(list_ids(*list) =~= list_ids(*old(list)).push(token_id));
    }
}

/// A list in the given environment with the ids of a readable list, in its
/// order.
pub fn copy_list(env: &soroban_sdk::Env, list: &soroban_sdk::Vec<u64>) -> (copy:
    soroban_sdk::Vec<u64>)
    requires
        list_readable(*list),
    ensures
        list_readable(copy),
        list_ids(copy) == list_ids(*list),
{
    let mut copy = new_list(env);
    let len = list_len(list);
    let mut i: u32 = 0;
    while i < len
        invariant
            i <= len,
            len == cells_of(*list).len(),
            list_readable(*list),
            list_readable(copy),
            list_ids(copy) == list_ids(*list).take(i as int),
        decreases len - i,
    {
        let cell = list_get(list, i);
        assert(cells_of(*list)[i as int] is Some);
        match cell {
            Some(id) => {
                push_token_id(&mut copy, id);
                assert(list_ids(*list).take(i + 1) =~= list_ids(*list).take(i as int).push(id));
            },
            None => {},
        }
        i += 1;
    }
    assert(list_ids(*list).take(len as int) =~= list_ids(*list));
    copy
}

/// Two readable lists with the same ids hold the same items.
pub proof fn lemma_same_ids_same_cells(one: soroban_sdk::Vec<u64>, other: soroban_sdk::Vec<u64>)
    requires
        list_readable(one),
    ensures
        cells_of(one) == cells_of(other) <==> (list_readable(other) && list_ids(other) == list_ids(
            one,
        )),
{
    if cells_of(one) == cells_of(other) {
        assert(list_ids(other) =~= list_ids(one));
    }
    if list_readable(other) && list_ids(other) == list_ids(one) {
        assert(cells_of(one).len() == list_ids(one).len());
        assert(cells_of(other).len() == list_ids(other).len());
        assert forall|i: int| 0 <= i < cells_of(one).len() implies cells_of(one)[i] == cells_of(
            other,
        )[i] by {
            assert(cells_of(one)[i] is Some);
            assert(cells_of(other)[i] is Some);
            assert(list_ids(one)[i] == cells_of(one)[i]->Some_0);
            assert(list_ids(other)[i] == cells_of(other)[i]->Some_0);
        }
        assert(cells_of(one) =~= cells_of(other));
    }
}

/// Whether both lists hold the same items in the same order.
pub fn same_list(one: &soroban_sdk::Vec<u64>, other: &soroban_sdk::Vec<u64>) -> (same: bool)
    ensures
        same == (cells_of(*one) == cells_of(*other)),
{
    let len = list_len(one);
    if list_len(other) != len {
        return false;
    }
    let mut i: u32 = 0;
    while i < len
        invariant
            i <= len,
            len == cells_of(*one).len(),
            len == cells_of(*other).len(),
            forall|j: int| 0 <= j < i ==> cells_of(*one)[j] == cells_of(*other)[j],
        decreases len - i,
    {
        let left = list_get(one, i);
        let right = list_get(other, i);
        let differ = match (left, right) {
            (Some(a), Some(b)) => a != b,
            (None, None) => false,
            _ => true,
        };
        if differ {
            return false;
        }
        i += 1;
    }
    assert(cells_of(*one) =~= cells_of(*other));
    true
}

/// The sequence without the first occurrence of `id`; the sequence itself
/// where `id` does not occur.
pub open spec fn without_first(ids: Seq<u64>, id: u64) -> Seq<u64>
    decreases ids.len(),
{
    if ids.len() == 0 {
        ids
    } else if ids[0] == id {
        ids.drop_first()
    } else {
        seq![ids[0]] + without_first(ids.drop_first(), id)
    }
}

/// Removing at the first place where `id` stands gives `without_first`.
proof fn lemma_remove_at_first(ids: Seq<u64>, id: u64, at: int)
    requires
        0 <= at < ids.len(),
        ids[at] == id,
        forall|j: int| 0 <= j < at ==> ids[j] != id,
    ensures
        ids.remove(at) == without_first(ids, id),
    decreases ids.len(),
{
    if at == 0 {
        assert(ids.remove(0) =~= ids.drop_first());
    } else {
        let rest = ids.drop_first();
        assert forall|j: int| 0 <= j < at - 1 implies rest[j] != id by {
            assert(rest[j] == ids[j + 1]);
        }
        lemma_remove_at_first(rest, id, at - 1);
        assert(ids.remove(at) =~= seq![ids[0]] + rest.remove(at - 1));
    }
}

/// A sequence in which `id` does not occur stays as it is.
pub proof fn lemma_without_absent(ids: Seq<u64>, id: u64)
    requires
        !ids.contains(id),
    ensures
        without_first(ids, id) == ids,
    decreases ids.len(),
{
    if ids.len() > 0 {
        let rest = ids.drop_first();
        assert(ids[0] != id);
        assert forall|j: int| 0 <= j < rest.len() implies rest[j] != id by {
            assert(rest[j] == ids[j + 1]);
        }
        lemma_without_absent(rest, id);
        assert(seq![ids[0]] + rest =~= ids);
    }
}

/// Taking `id` out of a sequence that holds it shortens the sequence by one
/// and leaves every other id where it was relative to the rest.
pub proof fn lemma_without_present(ids: Seq<u64>, id: u64)
    requires
        ids.contains(id),
    ensures
        without_first(ids, id).len() == ids.len() - 1,
        forall|other: u64|
            other != id ==> without_first(ids, id).contains(other) == ids.contains(other),
    decreases ids.len(),
{
    let rest = ids.drop_first();
    let out = without_first(ids, id);
    if ids[0] == id {
        assert forall|other: u64| other != id implies out.contains(other) == ids.contains(
            other,
        ) by {
            if ids.contains(other) {
                let j = choose|j: int| 0 <= j < ids.len() && ids[j] == other;
                assert(rest[j - 1] == other);
            }
            if out.contains(other) {
                let j = choose|j: int| 0 <= j < out.len() && out[j] == other;
                assert(ids[j + 1] == other);
            }
        }
    } else {
        let j = choose|j: int| 0 <= j < ids.len() && ids[j] == id;
        assert(rest[j - 1] == id);
        lemma_without_present(rest, id);
        let tail = without_first(rest, id);
        assert forall|other: u64| other != id implies out.contains(other) == ids.contains(
            other,
        ) by {
            if ids.contains(other) {
                let k = choose|k: int| 0 <= k < ids.len() && ids[k] == other;
                if k == 0 {
                    assert(out[0] == other);
                } else {
                    assert(rest[k - 1] == other);
                    assert(rest.contains(other));
                    assert(tail.contains(other));
                    let m = choose|m: int| 0 <= m < tail.len() && tail[m] == other;
                    assert(out[m + 1] == other);
                }
            }
            if out.contains(other) {
                let k = choose|k: int| 0 <= k < out.len() && out[k] == other;
                if k == 0 {
                    assert(ids[0] == other);
                } else {
                    assert(tail[k - 1] == other);
                    assert(tail.contains(other));
                    assert(rest.contains(other));
                    let m = choose|m: int| 0 <= m < rest.len() && rest[m] == other;
                    assert(ids[m + 1] == other);
                }
            }
        }
    }
}

/// Taking `id` out of a sequence without repetition leaves one without
/// repetition in which `id` no longer occurs.
pub proof fn lemma_without_distinct(ids: Seq<u64>, id: u64)
    requires
        ids.no_duplicates(),
    ensures
        without_first(ids, id).no_duplicates(),
        !without_first(ids, id).contains(id),
    decreases ids.len(),
{
    if ids.len() > 0 {
        let rest = ids.drop_first();
        let out = without_first(ids, id);
        assert forall|a: int, b: int| 0 <= a < rest.len() && 0 <= b < rest.len() && a != b implies rest[a]
            != rest[b] by {
            assert(rest[a] == ids[a + 1] && rest[b] == ids[b + 1]);
        }
        assert(rest.no_duplicates());
        if ids[0] == id {
            if rest.contains(id) {
                let j = choose|j: int| 0 <= j < rest.len() && rest[j] == id;
                assert(ids[j + 1] == id);
            }
        } else {
            lemma_without_distinct(rest, id);
            let tail = without_first(rest, id);
            if rest.contains(ids[0]) {
                let j = choose|j: int| 0 <= j < rest.len() && rest[j] == ids[0];
                assert(ids[j + 1] == ids[0]);
            }
            if rest.contains(id) {
                lemma_without_present(rest, id);
            } else {
                lemma_without_absent(rest, id);
            }
            assert(!tail.contains(ids[0]));
            assert forall|a: int, b: int| 0 <= a < out.len() && 0 <= b < out.len() && a != b implies out[a]
                != out[b] by {
                if a > 0 {
                    assert(out[a] == tail[a - 1]);
                }
                if b > 0 {
                    assert(out[b] == tail[b - 1]);
                }
            }
            if out.contains(id) {
                let k = choose|k: int| 0 <= k < out.len() && out[k] == id;
                assert(tail[k - 1] == id);
            }
        }
    }
}

/// Takes `token_id` out of a readable list, at the first place where it
/// stands, and says whether it was there. A list that does not hold it is left
/// as it is.
pub fn remove_token_id(ids: &mut soroban_sdk::Vec<u64>, token_id: u64) -> (removed: bool)
    requires
        list_readable(*old(ids)),
    ensures
        removed == list_ids(*old(ids)).contains(token_id),
        list_ids(*final(ids)) == without_first(list_ids(*old(ids)), token_id),
        list_readable(*final(ids)),
        list_ids(*old(ids)).len() <= u32::MAX,
{
    let len = list_len(ids);
    let mut i: u32 = 0;
    while i < len
        invariant
            i <= len,
            len == cells_of(*ids).len(),
            *ids == *old(ids),
            list_readable(*ids),
            forall|j: int| 0 <= j < i ==> list_ids(*ids)[j] != token_id,
        decreases len - i,
    {
        let cell = list_get(ids, i);
        assert(cells_of(*ids)[i as int] is Some);
        if cell == Some(token_id) {
            proof {
                lemma_remove_at_first(list_ids(*ids), token_id, i as int);
            }
            list_remove(ids, i);
            proof {
                let before = cells_of(*old(ids));
                let after = cells_of(*ids);
                assert forall|k: int| 0 <= k < after.len() implies (#[trigger] after[k]) is Some by {
                    if k < i {
                        assert(after[k] == before[k]);
                    } else {
                        assert(after[k] == before[k + 1]);
                    }
                }
                assert(list_ids(*ids) =~= list_ids(*old(ids)).remove(i as int));
                assert(list_ids(*old(ids))[i as int] == token_id);
            }
            return true;
        }
        i += 1;
    }
    proof {
        lemma_without_absent(list_ids(*ids), token_id);
    }
    false
}

} // verus!
