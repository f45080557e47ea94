//! The hash value type: a fixed-length bit vector tagged with the
//! configuration that produced it, and the Hamming-distance comparator.

use vstd::prelude::*;

use crate::HashError;
use crate::config::HasherConfig;
use crate::config::spec_valid_config;

verus! {

/// The Hamming distance between two equal-length bit sequences: the count
/// of positions at which they differ.
pub open spec fn hamming(a: Seq<bool>, b: Seq<bool>) -> nat
    decreases a.len(),
{
    if a.len() == 0 {
        0
    } else {
        hamming(a.drop_last(), b.drop_last()) + (if a.last() != b.last() {
            1nat
        } else {
            0nat
        })
    }
}

/// A perceptual hash: an ordered, fixed-length bit vector plus the
/// configuration under which it was produced. Hashes are only comparable
/// when their configurations coincide; comparing across configurations is
/// a programming error, reported distinctly from any genuine distance.
pub struct ImageHash {
    pub bits: Vec<bool>,
    pub config: HasherConfig,
}

impl ImageHash {
    /// A well-formed hash carries exactly `bit_length` bits under a
    /// configuration that validates.
    pub open spec fn wf(self) -> bool {
        &&& spec_valid_config(self.config.alg, self.config.bit_length)
        &&& self.bits@.len() == self.config.bit_length
    }

    /// The number of bits in this hash.
    pub fn bit_len(&self) -> (r: usize)
        ensures
            r == self.bits@.len(),
    {
        self.bits.len()
    }

    /// The bit at position `i` (row-major extraction order).
    pub fn bit(&self, i: usize) -> (r: bool)
        requires
            i < self.bits@.len(),
        ensures
            r == self.bits@[i as int],
    {
        self.bits[i]
    }

    /// The Hamming distance to `other`: `Ok` with the count of differing
    /// bit positions when both hashes were produced under the same
    /// configuration, and `Err(ProgrammingError)` otherwise.
    pub fn dist(&self, other: &ImageHash) -> (r: Result<u32, HashError>)
        requires
            self.wf(),
            other.wf(),
        ensures
            self.config == other.config ==> r == Ok::<u32, HashError>(
                hamming(self.bits@, other.bits@) as u32,
            ),
            self.config != other.config ==> r == Err::<u32, HashError>(HashError::ProgrammingError),
    {
        if self.config != other.config {
            return Err(HashError::ProgrammingError);
        }
        let n = self.bits.len();
        let mut count: u32 = 0;
        let mut i: usize = 0;
        while i < n
            invariant
                i <= n,
                n == self.bits@.len(),
                n == other.bits@.len(),
                count == hamming(self.bits@.take(i as int), other.bits@.take(i as int)),
                count <= i,
            decreases n - i,
        {
            proof {
                let a = self.bits@.take(i as int + 1);
                let b = other.bits@.take(i as int + 1);
                assert(a.drop_last() =~= self.bits@.take(i as int));
                assert(b.drop_last() =~= other.bits@.take(i as int));
                assert(a.last() == self.bits@[i as int]);
                assert(b.last() == other.bits@[i as int]);
            }
            if self.bits[i] != other.bits[i] {
                count = count + 1;
            }
            i = i + 1;
        }
        proof {
            assert(self.bits@.take(n as int) =~= self.bits@);
            assert(other.bits@.take(n as int) =~= other.bits@);
        }
        Ok(count)
    }

    /// Export the bit vector as raw bytes: bit `i` of the hash is bit
    /// `i % 8` (least significant first) of byte `i / 8`, and any unused
    /// high bits of the final byte are zero.
    pub fn to_bytes(&self) -> (r: Vec<u8>)
        ensures
            r@.len() == (self.bits@.len() + 7) / 8,
            forall|i: int|
                0 <= i < self.bits@.len() ==> (#[trigger] bit_of_byte(
                    r@[i / 8],
                    (i % 8) as nat,
                ) == self.bits@[i]),
            forall|i: int|
                self.bits@.len() <= i < r@.len() * 8 ==> (#[trigger] bit_of_byte(
                    r@[i / 8],
                    (i % 8) as nat,
                ) == false),
    {
        let n = self.bits.len();
        let mut out: Vec<u8> = Vec::new();
        let mut cur: u8 = 0;
        let mut i: usize = 0;
        proof {
            assert(forall|j: u8| #[trigger] ((0u8 >> j) & 1u8) == 0u8) by (bit_vector);
        }
        while i < n
            invariant
                i <= n,
                n == self.bits@.len(),
                out@.len() == i / 8,
                forall|j: int|
                    0 <= j < out@.len() * 8 ==> (#[trigger] bit_of_byte(out@[j / 8], (j % 8) as nat)
                        == self.bits@[j]),
                forall|j: int|
                    0 <= j < 8 ==> (#[trigger] bit_of_byte(cur, j as nat) == (if (i / 8) * 8 + j
                        < i {
                        self.bits@[(i / 8) * 8 + j]
                    } else {
                        false
                    })),
            decreases n - i,
        {
            let bit_idx = (i % 8) as u8;
            cur = set_bit(cur, bit_idx, self.bits[i]);
            i = i + 1;
            proof {
                assert(i as int - 1 == 8 * ((i - 1) as int / 8) + ((i - 1) as int % 8));
            }
            if i % 8 == 0 {
                let ghost old_out = out@;
                out.push(cur);
                proof {
                    assert forall|j: int|
                        0 <= j < out@.len() * 8 implies (#[trigger] bit_of_byte(
                        out@[j / 8],
                        (j % 8) as nat,
                    ) == self.bits@[j]) by {
                        assert(j == 8 * (j / 8) + (j % 8));
                        if j / 8 < old_out.len() {
                            assert(out@[j / 8] == old_out[j / 8]);
                            assert(bit_of_byte(old_out[j / 8], (j % 8) as nat) == self.bits@[j]);
                        } else {
                            assert(out@[j / 8] == cur);
                            assert(bit_of_byte(cur, (j % 8) as nat) == self.bits@[j]);
                        }
                    }
                }
                cur = 0;
                proof {
                    assert(forall|j: u8| #[trigger] ((0u8 >> j) & 1u8) == 0u8) by (bit_vector);
                }
            }
        }
        if i % 8 != 0 {
            let ghost old_out = out@;
            out.push(cur);
            proof {
                assert(i as int == 8 * (i as int / 8) + (i as int % 8));
                assert forall|j: int|
                    0 <= j < n implies (#[trigger] bit_of_byte(out@[j / 8], (j % 8) as nat)
                    == self.bits@[j]) by {
                    assert(j == 8 * (j / 8) + (j % 8));
                    if j / 8 < old_out.len() {
                        assert(out@[j / 8] == old_out[j / 8]);
                        assert(bit_of_byte(old_out[j / 8], (j % 8) as nat) == self.bits@[j]);
                    } else {
                        assert(out@[j / 8] == cur);
                        assert(bit_of_byte(cur, (j % 8) as nat) == self.bits@[j]);
                    }
                }
            }
        }
        out
    }
}

/// Bit `j` of byte `b`, least significant bit first.
pub open spec fn bit_of_byte(b: u8, j: nat) -> bool {
    (b >> (j as u8)) & 1u8 == 1u8
}

/// Write bit `idx` of a byte, leaving every other bit as it was.
fn set_bit(b: u8, idx: u8, v: bool) -> (r: u8)
    requires
        idx < 8,
    ensures
        forall|j: nat|
            j < 8 ==> #[trigger] bit_of_byte(r, j) == (if j == idx as nat {
                v
            } else {
                bit_of_byte(b, j)
            }),
{
    if v {
        let r = b | (1u8 << idx);
        proof {
            assert(forall|j: u8|
                j < 8 && idx < 8 ==> #[trigger] (((b | (1u8 << idx)) >> j) & 1u8) == (if j == idx {
                    1u8
                } else {
                    (b >> j) & 1u8
                })) by (bit_vector);
            assert forall|j: nat| j < 8 implies #[trigger] bit_of_byte(r, j) == (if j == idx as nat {
                true
            } else {
                bit_of_byte(b, j)
            }) by {
                assert((((b | (1u8 << idx)) >> (j as u8)) & 1u8) == (if (j as u8) == idx {
                    1u8
                } else {
                    (b >> (j as u8)) & 1u8
                }));
                assert((1u8 >> 0u8) & 1u8 == 1u8) by (bit_vector);
            }
        }
        r
    } else {
        let r = b & !(1u8 << idx);
        proof {
            assert(forall|j: u8|
                j < 8 && idx < 8 ==> #[trigger] (((b & !(1u8 << idx)) >> j) & 1u8) == (if j
                    == idx {
                    0u8
                } else {
                    (b >> j) & 1u8
                })) by (bit_vector);
            assert forall|j: nat| j < 8 implies #[trigger] bit_of_byte(r, j) == (if j == idx as nat {
                false
            } else {
                bit_of_byte(b, j)
            }) by {
                assert((((b & !(1u8 << idx)) >> (j as u8)) & 1u8) == (if (j as u8) == idx {
                    0u8
                } else {
                    (b >> (j as u8)) & 1u8
                }));
            }
        }
        r
    }
}

/// The distance from any hash to itself is zero.
pub proof fn lemma_hamming_self(a: Seq<bool>)
    ensures
        hamming(a, a) == 0,
    decreases a.len(),
{
    if a.len() > 0 {
        lemma_hamming_self(a.drop_last());
    }
}

/// The Hamming distance is symmetric on equal-length bit vectors.
pub proof fn lemma_hamming_symmetric(a: Seq<bool>, b: Seq<bool>)
    requires
        a.len() == b.len(),
    ensures
        hamming(a, b) == hamming(b, a),
    decreases a.len(),
{
    if a.len() > 0 {
        lemma_hamming_symmetric(a.drop_last(), b.drop_last());
    }
}

/// The distance of a hash to itself is zero: `dist` on two hashes with the
/// same configuration and identical bits answers zero.
pub proof fn lemma_distance_self(h: ImageHash)
    ensures
        hamming(h.bits@, h.bits@) == 0,
{
    lemma_hamming_self(h.bits@);
}

/// The distance between two comparable hashes does not depend on the order
/// of its arguments.
pub proof fn lemma_distance_symmetric(a: ImageHash, b: ImageHash)
    requires
        a.bits@.len() == b.bits@.len(),
    ensures
        hamming(a.bits@, b.bits@) == hamming(b.bits@, a.bits@),
{
    lemma_hamming_symmetric(a.bits@, b.bits@);
}

} // verus!
