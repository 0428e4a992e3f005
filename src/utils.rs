//! Name derivation: client names from signing keys, and relocation of a
//! proposed name onto the hash of itself and its closest known nodes.
use vstd::prelude::*;
use crate::error::RoutingError;
use crate::name_type::{
    closer, closer_to_target, lemma_closer_antisymmetric, lemma_closer_irreflexive, lemma_closer_transitive,
    NameType,
    NAME_BYTES,
};

verus! {

/// The SHA-512 digest of a byte string.
pub uninterp spec fn sha512_of(data: Seq<u8>) -> Seq<u8>;

/// Relies on sodiumoxide::crypto::hash::sha512::hash, which returns the
/// 64-byte SHA-512 digest of its input and depends on the input alone.
#[verifier::external_body]
fn sha512(data: &[u8]) -> (r: [u8; 64])
    ensures
        r@ == sha512_of(data@),
{
    sodiumoxide::crypto::hash::sha512::hash(data).0
}

/// The client name bound to a public signing key: the SHA-512 of the key.
pub fn public_key_to_client_name(key: &[u8; 32]) -> (r: NameType)
    ensures
        r@ == sha512_of(key@),
{
    NameType(sha512(key.as_slice()))
}

/// Index of the anchor closest to `target` among the first `n` entries of
/// `nodes`, leaving out index `skip`; the earliest one wins a tie, as a
/// stable sort by distance would place it first. `-1` when there is none.
pub open spec fn closest_index(nodes: Seq<NameType>, target: Seq<u8>, n: int, skip: int) -> int
    decreases n,
{
    if n <= 0 {
        -1
    } else {
        let best = closest_index(nodes, target, n - 1, skip);
        if n - 1 == skip {
            best
        } else if best < 0 || closer(nodes[n - 1]@, nodes[best]@, target) {
            n - 1
        } else {
            best
        }
    }
}

/// The closest anchor to `proposed`.
pub open spec fn first_closest(proposed: Seq<u8>, anchors: Seq<NameType>) -> int {
    closest_index(anchors, proposed, anchors.len() as int, -1)
}

/// The closest anchor to `proposed` after the first one; `-1` when there
/// is a single anchor.
pub open spec fn second_closest(proposed: Seq<u8>, anchors: Seq<NameType>) -> int {
    closest_index(anchors, proposed, anchors.len() as int, first_closest(proposed, anchors))
}

/// The bytes hashed by relocation: the proposed name, then the closest
/// anchor, then the second closest one if there is one.
pub open spec fn relocation_input(proposed: Seq<u8>, anchors: Seq<NameType>) -> Seq<u8> {
    let first = first_closest(proposed, anchors);
    let second = second_closest(proposed, anchors);
    if second < 0 {
        proposed + anchors[first]@
    } else {
        proposed + anchors[first]@ + anchors[second]@
    }
}

/// The name that relocation assigns to `proposed` given `anchors`.
pub open spec fn relocated_name(proposed: Seq<u8>, anchors: Seq<NameType>) -> Seq<u8> {
    sha512_of(relocation_input(proposed, anchors))
}

fn push_name(out: &mut Vec<u8>, name: &NameType)
    ensures
        final(out)@ == old(out)@ + name@,
{
    let mut i: usize = 0;
    while i < NAME_BYTES
        invariant
            0 <= i <= NAME_BYTES,
            name@.len() == NAME_BYTES,
            out@ == old(out)@ + name@.subrange(0, i as int),
        decreases NAME_BYTES - i,
    {
        out.push(name.0[i]);
        assert(name@.subrange(0, i + 1) =~= name@.subrange(0, i as int).push(name@[i as int]));
        i = i + 1;
    }
    assert(name@.subrange(0, NAME_BYTES as int) =~= name@);
}

/// Relocates `original_name`: hashes it together with the one or two entries
/// of `close_nodes` closest to it, closest first. Fails when `close_nodes`
/// is empty.
pub fn calculate_relocated_name(close_nodes: Vec<NameType>, original_name: &NameType) -> (r:
    Result<NameType, RoutingError>)
    ensures
        close_nodes@.len() == 0 <==> r is Err,
        r is Err ==> r->Err_0 == RoutingError::EmptyReferenceSet,
        r is Ok ==> r->Ok_0@ == relocated_name(original_name@, close_nodes@),
{
    let n = close_nodes.len();
    if n == 0 {
        return Err(RoutingError::EmptyReferenceSet);
    }
    let ghost nodes = close_nodes@;
    let ghost target = original_name@;
    assert(closest_index(nodes, target, 0, -1) == -1);
    let mut first: usize = 0;
    let mut i: usize = 1;
    while i < n
        invariant
            n == nodes.len(),
            nodes == close_nodes@,
            target == original_name@,
            1 <= i <= n,
            first < i,
            first as int == closest_index(nodes, target, i as int, -1),
        decreases n - i,
    {
        if closer_to_target(&close_nodes[i], &close_nodes[first], original_name) {
            first = i;
        }
        i = i + 1;
    }
    let mut has_second = false;
    let mut second: usize = 0;
    let mut j: usize = 0;
    while j < n
        invariant
            n == nodes.len(),
            nodes == close_nodes@,
            target == original_name@,
            first < n,
            first as int == first_closest(target, nodes),
            0 <= j <= n,
            has_second ==> second < j && second as int == closest_index(
                nodes,
                target,
                j as int,
                first as int,
            ),
            !has_second ==> closest_index(nodes, target, j as int, first as int) == -1,
        decreases n - j,
    {
        if j != first && (!has_second || closer_to_target(
            &close_nodes[j],
            &close_nodes[second],
            original_name,
        )) {
            second = j;
            has_second = true;
        }
        j = j + 1;
    }
    let mut combined: Vec<u8> = Vec::new();
    push_name(&mut combined, original_name);
    push_name(&mut combined, &close_nodes[first]);
    if has_second {
        push_name(&mut combined, &close_nodes[second]);
    }
    assert(combined@ == relocation_input(target, nodes));
    Ok(NameType(sha512(combined.as_slice())))
}

proof fn lemma_closest_index(nodes: Seq<NameType>, target: NameType, n: int, skip: int)
    requires
        0 <= n <= nodes.len(),
    ensures
        ({
            let b = closest_index(nodes, target@, n, skip);
            &&& -1 <= b < n
            &&& b != skip || b == -1
            &&& b == -1 ==> n == 0 || (n == 1 && skip == 0)
            &&& b >= 0 ==> forall|k: int|
                0 <= k < n && k != skip ==> !closer(nodes[k]@, nodes[b]@, target@)
        }),
    decreases n,
{
    if n > 0 {
        lemma_closest_index(nodes, target, n - 1, skip);
        let best = closest_index(nodes, target@, n - 1, skip);
        let b = closest_index(nodes, target@, n, skip);
        if n - 1 != skip && b == n - 1 {
            if best >= 0 {
                assert forall|k: int| 0 <= k < n && k != skip implies !closer(
                    nodes[k]@,
                    nodes[b]@,
                    target@,
                ) by {
                    if k == b {
                        lemma_closer_irreflexive(nodes[k], target);
                    } else if closer(nodes[k]@, nodes[b]@, target@) {
                        lemma_closer_transitive(nodes[k], nodes[b], nodes[best], target);
                    }
                }
            } else {
                lemma_closer_irreflexive(nodes[n - 1], target);
            }
        }
    }
}

/// Relocation anchors on the closest entries: no anchor is strictly closer
/// to the proposed name than the first one picked, and none but that one is
/// strictly closer than the second, which is picked whenever there are two
/// or more anchors.
pub proof fn lemma_relocation_picks_closest(p: NameType, anchors: Seq<NameType>)
    requires
        anchors.len() > 0,
    ensures
        ({
            let first = first_closest(p@, anchors);
            let second = second_closest(p@, anchors);
            &&& 0 <= first < anchors.len()
            &&& forall|k: int|
                0 <= k < anchors.len() ==> !closer(anchors[k]@, anchors[first]@, p@)
            &&& anchors.len() == 1 ==> second == -1
            &&& anchors.len() >= 2 ==> 0 <= second < anchors.len() && second != first
            &&& anchors.len() >= 2 ==> forall|k: int|
                0 <= k < anchors.len() && k != first ==> !closer(
                    anchors[k]@,
                    anchors[second]@,
                    p@,
                )
        }),
{
    let n = anchors.len() as int;
    lemma_closest_index(anchors, p, n, -1);
    let first = first_closest(p@, anchors);
    lemma_closest_index(anchors, p, n, first);
    if n >= 2 {
        let other = if first == 0 { 1int } else { 0int };
        assert(other != first);
    }
}

/// Relocation is a function of the bytes of its inputs: the same proposed
/// name and the same anchors, in the same order, give the same name.
pub proof fn lemma_relocation_deterministic(
    p1: NameType,
    anchors1: Seq<NameType>,
    p2: NameType,
    anchors2: Seq<NameType>,
)
    requires
        p1@ == p2@,
        anchors1.len() == anchors2.len(),
        forall|i: int| 0 <= i < anchors1.len() ==> anchors1[i]@ == anchors2[i]@,
    ensures
        relocated_name(p1@, anchors1) == relocated_name(p2@, anchors2),
{
    assert forall|i: int| 0 <= i < anchors1.len() implies anchors1[i] == anchors2[i] by {
        assert(anchors1[i].0 =~= anchors2[i].0);
    }
    assert(anchors1 =~= anchors2);
}

/// With a single anchor `a`, relocation hashes `p` followed by `a`.
pub proof fn lemma_single_anchor(p: NameType, a: NameType)
    ensures
        relocation_input(p@, seq![a]) == p@ + a@,
        relocated_name(p@, seq![a]) == sha512_of(p@ + a@),
{
    let s = seq![a];
    assert(closest_index(s, p@, 0, -1) == -1);
    assert(closest_index(s, p@, 1, -1) == 0);
    assert(closest_index(s, p@, 0, 0) == -1);
    assert(closest_index(s, p@, 1, 0) == -1);
}

/// With two anchors of which `x` is strictly closer to `p` than `y`,
/// relocation hashes `p`, then `x`, then `y`, whichever order the anchors
/// are given in.
pub proof fn lemma_two_anchors(p: NameType, x: NameType, y: NameType)
    requires
        closer(x@, y@, p@),
    ensures
        relocation_input(p@, seq![x, y]) == p@ + x@ + y@,
        relocation_input(p@, seq![y, x]) == p@ + x@ + y@,
        relocated_name(p@, seq![x, y]) == relocated_name(p@, seq![y, x]),
{
    if x@ == y@ {
        lemma_closer_irreflexive(x, p);
        assert(x@ == y@);
    } else {
        lemma_closer_antisymmetric(x, y, p);
    }
    let s = seq![x, y];
    assert(closest_index(s, p@, 0, -1) == -1);
    assert(closest_index(s, p@, 1, -1) == 0);
    assert(closest_index(s, p@, 2, -1) == 0);
    assert(closest_index(s, p@, 0, 0) == -1);
    assert(closest_index(s, p@, 1, 0) == -1);
    assert(closest_index(s, p@, 2, 0) == 1);
    let t = seq![y, x];
    assert(closest_index(t, p@, 0, -1) == -1);
    assert(closest_index(t, p@, 1, -1) == 0);
    assert(closest_index(t, p@, 2, -1) == 1);
    assert(closest_index(t, p@, 0, 1) == -1);
    assert(closest_index(t, p@, 1, 1) == 0);
    assert(closest_index(t, p@, 2, 1) == 0);
}

} // verus!
