use vstd::prelude::*;
use crate::error::ValidityError;

verus! {

/// Whether bit `k` of `byte` is set, counting from the least significant bit.
pub open spec fn bit_of(byte: u8, k: int) -> bool {
    (byte >> (k as u8)) & 1u8 == 1u8
}

/// Bit `p` of a packed buffer: it lives in byte `p / 8` at place `p % 8`,
/// least significant bit of each byte first.
pub open spec fn packed_bit(bytes: Seq<u8>, p: int) -> bool {
    bit_of(bytes[p / 8], p % 8)
}

/// All the bits packed into `bytes`, eight for each byte.
pub open spec fn bits_of(bytes: Seq<u8>) -> Seq<bool> {
    Seq::new(bytes.len() * 8, |p: int| packed_bit(bytes, p))
}

/// The number of whole bytes needed to hold `n` bits.
pub open spec fn bytes_for(n: int) -> int {
    (n + 7) / 8
}

/// Setting bit `k` of a byte sets that bit and leaves the others alone.
proof fn lemma_set_bit(byte: u8, k: u8, j: u8)
    by (bit_vector)
    requires
        k < 8,
        j < 8,
    ensures
        ((byte | (1u8 << k)) >> j) & 1u8 == 1u8 <==> (j == k || (byte >> j) & 1u8 == 1u8),
{
}

/// No bit of the zero byte is set.
proof fn lemma_zero_byte(j: u8)
    by (bit_vector)
    requires
        j < 8,
    ensures
        (0u8 >> j) & 1u8 == 0u8,
{
}

/// A bit-packed validity buffer: one bit per row of the array it was
/// allocated for, set when the row holds a value and clear when it is null.
#[derive(Debug)]
pub struct ValidityBitmap {
    bytes: Vec<u8>,
}

impl View for ValidityBitmap {
    type V = Seq<bool>;

    /// The stored bits, `true` meaning present.
    open spec fn view(&self) -> Seq<bool> {
        bits_of(self.bytes())
    }
}

impl ValidityBitmap {
    /// The bytes physically stored.
    pub closed spec fn bytes(&self) -> Seq<u8> {
        self.bytes@
    }

    /// Every stored bit has a position that fits in `usize`.
    #[verifier::type_invariant]
    pub closed spec fn wf(&self) -> bool {
        self.bytes@.len() * 8 <= usize::MAX
    }

    /// Wraps a buffer of packed validity bits.
    ///
    /// Fails with `MalformedInput` exactly when the buffer holds more bits
    /// than `usize` can count.
    pub fn from_bytes(bytes: Vec<u8>) -> (r: Result<ValidityBitmap, ValidityError>)
        ensures
            bytes@.len() * 8 <= usize::MAX ==> r is Ok && r->Ok_0.bytes() == bytes@,
            bytes@.len() * 8 > usize::MAX ==> r == Err::<ValidityBitmap, ValidityError>(
                ValidityError::MalformedInput,
            ),
    {
        if bytes.len() > usize::MAX / 8 {
            Err(ValidityError::MalformedInput)
        } else {
            Ok(ValidityBitmap { bytes })
        }
    }

    /// Packs one flag per row, `true` for a present value, into as few
    /// bytes as hold them; the unused high bits of the last byte are clear.
    ///
    /// Fails with `MalformedInput` exactly when the packed bits would
    /// outnumber what `usize` can count.
    pub fn from_flags(valid: &Vec<bool>) -> (r: Result<ValidityBitmap, ValidityError>)
        ensures
            bytes_for(valid@.len() as int) * 8 <= usize::MAX ==> r is Ok && ({
                let b = r->Ok_0;
                &&& b@.len() == bytes_for(valid@.len() as int) * 8
                &&& forall|p: int| 0 <= p < valid@.len() ==> #[trigger] b@[p] == valid@[p]
                &&& forall|p: int| valid@.len() <= p < b@.len() ==> !#[trigger] b@[p]
            }),
            bytes_for(valid@.len() as int) * 8 > usize::MAX ==> r == Err::<
                ValidityBitmap,
                ValidityError,
            >(ValidityError::MalformedInput),
    {
        let n = valid.len();
        let nbytes: usize = n / 8 + if n % 8 == 0 { 0 } else { 1 };
        if nbytes > usize::MAX / 8 {
            return Err(ValidityError::MalformedInput);
        }
        let mut bytes: Vec<u8> = Vec::new();
        let mut i: usize = 0;
        while i < nbytes
            invariant
                n == valid@.len(),
                nbytes == bytes_for(n as int),
                nbytes * 8 <= usize::MAX,
                i <= nbytes,
                bytes@.len() == i,
                forall|p: int|
                    0 <= p < i * 8 ==> #[trigger] packed_bit(bytes@, p) == (p < n && valid@[p]),
            decreases nbytes - i,
        {
            let mut byte: u8 = 0;
            let mut k: u8 = 0;
            proof {
                assert forall|j: int| 0 <= j < 8 implies !#[trigger] bit_of(byte, j) by {
                    lemma_zero_byte(j as u8);
                }
            }
            while k < 8
                invariant
                    n == valid@.len(),
                    i < nbytes,
                    nbytes * 8 <= usize::MAX,
                    k <= 8,
                    forall|j: int|
                        0 <= j < 8 ==> #[trigger] bit_of(byte, j) == (j < k && i * 8 + j < n
                            && valid@[i * 8 + j]),
                decreases 8 - k,
            {
                let pos: usize = i * 8 + k as usize;
                if pos < n && valid[pos] {
                    let ghost before = byte;
                    byte = byte | (1u8 << k);
                    proof {
                        assert forall|j: int| 0 <= j < 8 implies #[trigger] bit_of(byte, j) == (j
                            == k || bit_of(before, j)) by {
                            lemma_set_bit(before, k, j as u8);
                        }
                    }
                }
                k = k + 1;
            }
            let ghost prev = bytes@;
            bytes.push(byte);
            proof {
                assert forall|p: int| 0 <= p < (i + 1) * 8 implies #[trigger] packed_bit(
                    bytes@,
                    p,
                ) == (p < n && valid@[p]) by {
                    if p < i * 8 {
                        assert(packed_bit(prev, p) == (p < n && valid@[p]));
                        assert(bytes@[p / 8] == prev[p / 8]);
                    } else {
                        assert(p / 8 == i);
                        assert(p == i * 8 + p % 8);
                        assert(bit_of(byte, p % 8) == (p % 8 < 8 && i * 8 + p % 8 < n
                            && valid@[i * 8 + p % 8]));
                    }
                }
            }
            i = i + 1;
        }
        let b = ValidityBitmap { bytes };
        proof {
            assert forall|p: int| 0 <= p < valid@.len() implies #[trigger] b@[p] == valid@[p] by {
                assert(packed_bit(b.bytes(), p) == (p < n && valid@[p]));
            }
            assert forall|p: int| valid@.len() <= p < b@.len() implies !#[trigger] b@[p] by {
                assert(packed_bit(b.bytes(), p) == (p < n && valid@[p]));
            }
        }
        Ok(b)
    }

    /// Reads the bit at a position known to lie inside the buffer.
    pub(crate) fn bit_at(&self, pos: usize) -> (bit: bool)
        requires
            pos < self@.len(),
        ensures
            bit == self@[pos as int],
    {
        let byte = self.bytes[pos / 8];
        let place: u8 = (pos % 8) as u8;
        (byte >> place) & 1u8 == 1u8
    }

    /// Reads the bit at position `pos` of the stored buffer.
    ///
    /// Fails with `OutOfRange` exactly when `pos` is not below `bit_len`.
    pub fn get(&self, pos: usize) -> (r: Result<bool, ValidityError>)
        ensures
            pos < self@.len() ==> r == Ok::<bool, ValidityError>(self@[pos as int]),
            pos >= self@.len() ==> r == Err::<bool, ValidityError>(ValidityError::OutOfRange),
    {
        if pos / 8 >= self.bytes.len() {
            Err(ValidityError::OutOfRange)
        } else {
            Ok(self.bit_at(pos))
        }
    }

    /// The number of bits physically stored, which is eight times the byte
    /// count of the buffer and says nothing of how many rows a view shows.
    pub fn bit_len(&self) -> (n: usize)
        ensures
            n == self@.len(),
            n == self.bytes().len() * 8,
    {
        proof {
            use_type_invariant(self);
        }
        self.bytes.len() * 8
    }

    /// The bytes physically stored, as they were packed.
    pub fn as_bytes(&self) -> (bytes: &Vec<u8>)
        ensures
            bytes@ == self.bytes(),
    {
        &self.bytes
    }
}

} // verus!
