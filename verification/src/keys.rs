use vstd::prelude::*;
use vstd::string::*;
use crate::text::{ascii, push_bytes};

verus! {

/// The byte that separates the parts of a storage key: `/`.
pub open spec fn separator() -> u8 {
    '/' as u8
}

/// The parts of a key, each followed by the separator but the last.
pub open spec fn joined(parts: Seq<Seq<u8>>) -> Seq<u8>
    decreases parts.len(),
{
    if parts.len() == 0 {
        Seq::empty()
    } else if parts.len() == 1 {
        parts[0]
    } else {
        joined(parts.drop_last()) + seq![separator()] + parts.last()
    }
}

/// The bytes of each part.
pub open spec fn part_views(parts: Seq<&[u8]>) -> Seq<Seq<u8>> {
    Seq::new(parts.len(), |i: int| parts[i]@)
}

/// The namespace of the stored records.
pub open spec fn swaps_namespace() -> Seq<u8> {
    ascii("swaps"@)
}

/// The namespace of the stored lifecycle flags.
pub open spec fn swap_states_namespace() -> Seq<u8> {
    ascii("swapStates"@)
}

/// The key under which the record of `swap_id` is stored.
pub open spec fn swaps_key(swap_id: Seq<u8>) -> Seq<u8> {
    swaps_namespace() + seq![separator()] + swap_id
}

/// The key under which the lifecycle flag of `swap_id` is stored.
pub open spec fn swap_states_key(swap_id: Seq<u8>) -> Seq<u8> {
    swap_states_namespace() + seq![separator()] + swap_id
}

/// Joins the parts of a key with `/`.
pub fn make_key_by_parts(parts: Vec<&[u8]>) -> (key: Vec<u8>)
    ensures
        key@ == joined(part_views(parts@)),
{
    let ghost views = part_views(parts@);
    let mut key: Vec<u8> = Vec::new();
    let mut i: usize = 0;
    while i < parts.len()
        invariant
            i <= parts.len(),
            views == part_views(parts@),
            key@ == joined(views.take(i as int)),
        decreases parts.len() - i,
    {
        if i > 0 {
            key.push('/' as u8);
        }
        push_bytes(&mut key, parts[i]);
        assert(views.take(i + 1).drop_last() == views.take(i as int));
        i = i + 1;
    }
    assert(views.take(i as int) == views);
    key
}

/// The storage key of the record of `swap_id`: `swaps/<id>`.
pub fn make_swaps_key(swap_id: &[u8]) -> (key: Vec<u8>)
    ensures
        key@ == swaps_key(swap_id@),
{
    let namespace = "swaps".as_bytes();
    proof {
        reveal_strlit("swaps");
        is_ascii_spec_bytes("swaps");
        lemma_joined_pair(namespace@, swap_id@);
    }
    let parts = vec![namespace, swap_id];
    assert(part_views(parts@) == seq![namespace@, swap_id@]);
    make_key_by_parts(parts)
}

/// The storage key of the lifecycle flag of `swap_id`: `swapStates/<id>`.
pub fn make_swap_states_key(swap_id: &[u8]) -> (key: Vec<u8>)
    ensures
        key@ == swap_states_key(swap_id@),
{
    let namespace = "swapStates".as_bytes();
    proof {
        reveal_strlit("swapStates");
        is_ascii_spec_bytes("swapStates");
        lemma_joined_pair(namespace@, swap_id@);
    }
    let parts = vec![namespace, swap_id];
    assert(part_views(parts@) == seq![namespace@, swap_id@]);
    make_key_by_parts(parts)
}

/// Two joined parts are the first, the separator and the second.
pub proof fn lemma_joined_pair(first: Seq<u8>, second: Seq<u8>)
    ensures
        joined(seq![first, second]) == first + seq![separator()] + second,
{
    let parts = seq![first, second];
    assert(joined(parts.drop_last()) == first);
}

/// Distinct identifiers have distinct record keys.
pub proof fn lemma_swaps_key_injective(a: Seq<u8>, b: Seq<u8>)
    requires
        swaps_key(a) == swaps_key(b),
    ensures
        a == b,
{
    let prefix = swaps_namespace() + seq![separator()];
    assert(swaps_key(a).skip(prefix.len() as int) == a);
    assert(swaps_key(b).skip(prefix.len() as int) == b);
}

/// Distinct identifiers have distinct flag keys.
pub proof fn lemma_swap_states_key_injective(a: Seq<u8>, b: Seq<u8>)
    requires
        swap_states_key(a) == swap_states_key(b),
    ensures
        a == b,
{
    let prefix = swap_states_namespace() + seq![separator()];
    assert(swap_states_key(a).skip(prefix.len() as int) == a);
    assert(swap_states_key(b).skip(prefix.len() as int) == b);
}

/// No record key is a flag key, whatever the two identifiers are: the fifth
/// byte of the one is `s`, that of the other is `S`.
pub proof fn lemma_namespaces_disjoint(a: Seq<u8>, b: Seq<u8>)
    ensures
        swaps_key(a) != swap_states_key(b),
{
    reveal_strlit("swaps");
    reveal_strlit("swapStates");
    assert(swaps_key(a)[4] == 's' as u8);
    assert(swap_states_key(b)[4] == 'S' as u8);
}

} // verus!
