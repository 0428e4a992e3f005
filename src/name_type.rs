//! Fixed-width network identifiers and the XOR closeness metric.
use vstd::prelude::*;

verus! {

/// Width in bytes of an identifier: the output width of SHA-512.
pub const NAME_BYTES: usize = 64;

/// A 512-bit network identifier.
#[derive(Clone, Copy, Debug)]
pub struct NameType(pub [u8; 64]);

impl View for NameType {
    type V = Seq<u8>;

    open spec fn view(&self) -> Seq<u8> {
        self.0@
    }
}

/// `a` is closer to `t` than `b` is, judging from byte `i` on: the XOR
/// distances are compared most significant byte first, and the first byte
/// at which they differ decides.
pub open spec fn closer_from(a: Seq<u8>, b: Seq<u8>, t: Seq<u8>, i: int) -> bool
    decreases a.len() - i,
{
    if i < 0 || i >= a.len() {
        false
    } else if a[i] ^ t[i] != b[i] ^ t[i] {
        a[i] ^ t[i] < b[i] ^ t[i]
    } else {
        closer_from(a, b, t, i + 1)
    }
}

/// `a` is strictly closer to `t` than `b` is: the XOR distance of `a` to `t`,
/// read as a big-endian unsigned integer, is smaller than that of `b`.
pub open spec fn closer(a: Seq<u8>, b: Seq<u8>, t: Seq<u8>) -> bool {
    closer_from(a, b, t, 0)
}

proof fn lemma_xor_cancel(x: u8, y: u8, t: u8)
    ensures
        (x ^ t == y ^ t) == (x == y),
{
    assert((x ^ t == y ^ t) == (x == y)) by (bit_vector);
}

proof fn lemma_closer_from_asymmetric(a: Seq<u8>, b: Seq<u8>, t: Seq<u8>, i: int)
    requires
        a.len() == b.len(),
        b.len() == t.len(),
    ensures
        !(closer_from(a, b, t, i) && closer_from(b, a, t, i)),
    decreases a.len() - i,
{
    if 0 <= i < a.len() && a[i] ^ t[i] == b[i] ^ t[i] {
        lemma_closer_from_asymmetric(a, b, t, i + 1);
    }
}

proof fn lemma_closer_from_total(a: Seq<u8>, b: Seq<u8>, t: Seq<u8>, i: int)
    requires
        a.len() == b.len(),
        b.len() == t.len(),
        0 <= i <= a.len(),
        a.subrange(i, a.len() as int) != b.subrange(i, b.len() as int),
    ensures
        closer_from(a, b, t, i) || closer_from(b, a, t, i),
    decreases a.len() - i,
{
    if i == a.len() {
        assert(a.subrange(i, a.len() as int) =~= b.subrange(i, b.len() as int));
    } else {
        lemma_xor_cancel(a[i], b[i], t[i]);
        if a[i] ^ t[i] == b[i] ^ t[i] {
            if a.subrange(i + 1, a.len() as int) == b.subrange(i + 1, b.len() as int) {
                assert(a.subrange(i, a.len() as int) =~= b.subrange(i, b.len() as int)) by {
                    assert forall|k: int| 0 <= k < a.len() - i implies
                        a.subrange(i, a.len() as int)[k] == b.subrange(i, b.len() as int)[k] by {
                        if k > 0 {
                            assert(a.subrange(i + 1, a.len() as int)[k - 1]
                                == b.subrange(i + 1, b.len() as int)[k - 1]);
                        }
                    }
                }
            }
            lemma_closer_from_total(a, b, t, i + 1);
        }
    }
}

/// For two distinct identifiers exactly one is closer to any target than
/// the other: the metric orders distinct identifiers strictly and totally.
pub proof fn lemma_closer_antisymmetric(a: NameType, b: NameType, target: NameType)
    requires
        a@ != b@,
    ensures
        closer(a@, b@, target@) != closer(b@, a@, target@),
{
    lemma_closer_from_asymmetric(a@, b@, target@, 0);
    assert(a@.subrange(0, 64) =~= a@);
    assert(b@.subrange(0, 64) =~= b@);
    lemma_closer_from_total(a@, b@, target@, 0);
}

proof fn lemma_closer_from_transitive(a: Seq<u8>, b: Seq<u8>, c: Seq<u8>, t: Seq<u8>, i: int)
    requires
        a.len() == b.len(),
        b.len() == c.len(),
        c.len() == t.len(),
        closer_from(a, b, t, i),
        closer_from(b, c, t, i),
    ensures
        closer_from(a, c, t, i),
    decreases a.len() - i,
{
    if a[i] ^ t[i] == b[i] ^ t[i] && b[i] ^ t[i] == c[i] ^ t[i] {
        lemma_closer_from_transitive(a, b, c, t, i + 1);
    }
}

/// Closeness to a target is transitive.
pub proof fn lemma_closer_transitive(a: NameType, b: NameType, c: NameType, target: NameType)
    requires
        closer(a@, b@, target@),
        closer(b@, c@, target@),
    ensures
        closer(a@, c@, target@),
{
    lemma_closer_from_transitive(a@, b@, c@, target@, 0);
}

/// No identifier is closer to a target than itself.
pub proof fn lemma_closer_irreflexive(a: NameType, target: NameType)
    ensures
        !closer(a@, a@, target@),
{
    lemma_closer_from_asymmetric(a@, a@, target@, 0);
}

/// Returns whether `lhs` is strictly closer to `target` than `rhs` is under
/// the XOR metric, comparing the most significant byte first.
pub fn closer_to_target(lhs: &NameType, rhs: &NameType, target: &NameType) -> (r: bool)
    ensures
        r == closer(lhs@, rhs@, target@),
{
    let mut i: usize = 0;
    while i < NAME_BYTES
        invariant
            0 <= i <= NAME_BYTES,
            lhs@.len() == NAME_BYTES,
            rhs@.len() == NAME_BYTES,
            target@.len() == NAME_BYTES,
            closer_from(lhs@, rhs@, target@, 0) == closer_from(lhs@, rhs@, target@, i as int),
        decreases NAME_BYTES - i,
    {
        let d_lhs: u8 = lhs.0[i] ^ target.0[i];
        let d_rhs: u8 = rhs.0[i] ^ target.0[i];
        if d_lhs != d_rhs {
            return d_lhs < d_rhs;
        }
        i = i + 1;
    }
    false
}

impl NameType {
    /// Builds an identifier from its raw bytes.
    pub fn new(id: [u8; 64]) -> (r: NameType)
        ensures
            r@ == id@,
    {
        NameType(id)
    }

    /// The raw bytes of the identifier.
    pub fn get_id(&self) -> (r: [u8; 64])
        ensures
            r@ == self@,
    {
        self.0
    }
}

/// Whether two byte strings of the same length hold the same bytes.
pub(crate) fn bytes_equal(a: &[u8], b: &[u8]) -> (r: bool)
    requires
        a@.len() == b@.len(),
    ensures
        r == (a@ == b@),
{
    let mut i: usize = 0;
    while i < a.len()
        invariant
            0 <= i <= a@.len(),
            a@.len() == b@.len(),
            forall|k: int| 0 <= k < i ==> a@[k] == b@[k],
        decreases a@.len() - i,
    {
        if a[i] != b[i] {
            assert(a@[i as int] != b@[i as int]);
            return false;
        }
        i = i + 1;
    }
    assert(a@ =~= b@);
    true
}

impl PartialEq for NameType {
    fn eq(&self, other: &NameType) -> (r: bool) {
        bytes_equal(self.0.as_slice(), other.0.as_slice())
    }
}

impl vstd::std_specs::cmp::PartialEqSpecImpl for NameType {
    open spec fn obeys_eq_spec() -> bool {
        true
    }

    open spec fn eq_spec(&self, other: &NameType) -> bool {
        self@ == other@
    }
}

impl Eq for NameType {
}

} // verus!
