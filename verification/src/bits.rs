//! Bit vectors and bit matrices for correlated-randomness generation.
//!
//! A `BitVector` holds one bit per column of the base oblivious-transfer
//! setup; a `BitMatrix` is a list of such rows, and a `SquareBitMatrix` is
//! one with exactly [`SECURITY_PARAMETER`] rows.  `expand_transpose` is the
//! extension kernel: it stretches every row pseudorandomly and transposes
//! the result.

use vstd::prelude::*;

verus! {

/// The number of bits of security the protocols aim for, and the fixed
/// width, in bits, of a `BitVector`.
pub const SECURITY_PARAMETER: usize = 256;

/// The number of 64-bit words needed to hold `SECURITY_PARAMETER` bits.
pub const SEC_PARAM_64: usize = (SECURITY_PARAMETER + 64 - 1) / 64;

/// The number of bytes needed to hold `SECURITY_PARAMETER` bits.
pub const SEC_PARAM_8: usize = (SECURITY_PARAMETER + 8 - 1) / 8;

/// Bit `k` of the word `w`, counting from the least significant bit.
pub open spec fn word_bit(w: u64, k: u64) -> bool {
    ((w >> k) & 1) == 1
}

/// Bit `k` of the byte `b`, counting from the least significant bit.
pub open spec fn byte_bit(b: u8, k: u8) -> bool {
    ((b >> k) & 1) == 1
}

/// Bit `i` of a vector of 64-bit words, in low-to-high order within each
/// word: bit `i` lives in word `i / 64` at position `i % 64`.
pub open spec fn bv_bit(words: Seq<u64>, i: int) -> bool {
    word_bit(words[i / 64], (i % 64) as u64)
}

/// The word decoded from the eight bytes `b[off .. off + 8]` in
/// little-endian order.
pub open spec fn word_from_le_bytes(b: Seq<u8>, off: int) -> u64 {
    (b[off] as u64)
        | ((b[off + 1] as u64) << 8)
        | ((b[off + 2] as u64) << 16)
        | ((b[off + 3] as u64) << 24)
        | ((b[off + 4] as u64) << 32)
        | ((b[off + 5] as u64) << 40)
        | ((b[off + 6] as u64) << 48)
        | ((b[off + 7] as u64) << 56)
}

/// A vector of `SECURITY_PARAMETER` bits, stored as little-endian words.
#[derive(Clone, Copy, Debug, PartialEq, Eq)]
pub struct BitVector {
    words: [u64; SEC_PARAM_64],
}

impl View for BitVector {
    type V = Seq<u64>;

    closed spec fn view(&self) -> Seq<u64> {
        self.words@
    }
}

/// Draws one word from the operating system's randomness source.
///
/// Relies on `rand_core::OsRng`, whose `next_u64` yields cryptographically
/// secure random bits; nothing is promised of the value.
#[verifier::external_body]
fn os_next_u64() -> u64 {
    rand_core::RngCore::next_u64(&mut rand_core::OsRng)
}

/// Selects between two words without branching on the selector.
///
/// Relies on subtle's `u64::conditional_select`, which returns `b` when the
/// choice is set and `a` otherwise, in constant time.
#[verifier::external_body]
fn ct_select_u64(a: u64, b: u64, choice: bool) -> (r: u64)
    ensures
        r == if choice { b } else { a },
{
    <u64 as subtle::ConditionallySelectable>::conditional_select(
        &a,
        &b,
        subtle::Choice::from(choice as u8),
    )
}

impl BitVector {
    /// The all-zero bit vector.
    pub fn zero() -> (r: Self)
        ensures
            r@.len() == SEC_PARAM_64,
            forall|j: int| 0 <= j < SEC_PARAM_64 ==> r@[j] == 0u64,
    {
        BitVector { words: [0u64, 0u64, 0u64, 0u64] }
    }

    /// A bit vector with every word drawn from the system's secure
    /// randomness source.
    pub fn random() -> (r: Self)
        ensures
            r@.len() == SEC_PARAM_64,
    {
        BitVector { words: [os_next_u64(), os_next_u64(), os_next_u64(), os_next_u64()] }
    }

    /// Decodes a fixed-size little-endian byte buffer.
    pub fn from_bytes(bytes: &[u8; SEC_PARAM_8]) -> (r: Self)
        ensures
            r@.len() == SEC_PARAM_64,
            forall|j: int| 0 <= j < SEC_PARAM_64 ==> r@[j] == word_from_le_bytes(bytes@, 8 * j),
    {
        BitVector {
            words: [
                Self::word_at(bytes, 0),
                Self::word_at(bytes, 8),
                Self::word_at(bytes, 16),
                Self::word_at(bytes, 24),
            ],
        }
    }

    /// Reads the word stored little-endian at `bytes[off .. off + 8]`.
    fn word_at(bytes: &[u8; SEC_PARAM_8], off: usize) -> (r: u64)
        requires
            off + 8 <= SEC_PARAM_8,
        ensures
            r == word_from_le_bytes(bytes@, off as int),
    {
        (bytes[off] as u64)
            | ((bytes[off + 1] as u64) << 8u64)
            | ((bytes[off + 2] as u64) << 16u64)
            | ((bytes[off + 3] as u64) << 24u64)
            | ((bytes[off + 4] as u64) << 32u64)
            | ((bytes[off + 5] as u64) << 40u64)
            | ((bytes[off + 6] as u64) << 48u64)
            | ((bytes[off + 7] as u64) << 56u64)
    }

    /// The bits of this vector as comparisons with zero, in a stable
    /// low-to-high order: entry `i` compares bit `i % 64` of word `i / 64`
    /// with zero, so it is true exactly when the bit is clear.
    pub fn bits(&self) -> (r: Vec<bool>)
        ensures
            r@.len() == SECURITY_PARAMETER,
            forall|i: int| 0 <= i < SECURITY_PARAMETER ==> r@[i] == !bv_bit(self@, i),
    {
        let mut out: Vec<bool> = Vec::new();
        let mut i: usize = 0;
        while i < SECURITY_PARAMETER
            invariant
                i <= SECURITY_PARAMETER,
                out@.len() == i,
                forall|k: int| 0 <= k < i ==> out@[k] == !bv_bit(self@, k),
            decreases SECURITY_PARAMETER - i,
        {
            let w = self.words[i / 64];
            proof {
                let sh = (i % 64) as u64;
                assert(((w >> sh) & 1) == 0 || ((w >> sh) & 1) == 1) by (bit_vector);
            }
            out.push(((w >> ((i % 64) as u64)) & 1) == 0);
            i += 1;
        }
        out
    }

    /// Returns `a` when the choice is clear and `b` when it is set, word for
    /// word in constant time.
    pub fn conditional_select(a: &Self, b: &Self, choice: bool) -> (r: Self)
        ensures
            r@ == if choice { b@ } else { a@ },
    {
        let r = BitVector {
            words: [
                ct_select_u64(a.words[0], b.words[0], choice),
                ct_select_u64(a.words[1], b.words[1], choice),
                ct_select_u64(a.words[2], b.words[2], choice),
                ct_select_u64(a.words[3], b.words[3], choice),
            ],
        };
        proof {
            if choice {
                assert(r@ =~= b@);
            } else {
                assert(r@ =~= a@);
            }
        }
        r
    }
}

/// A matrix of bits: an ordered list of `BitVector` rows.
#[derive(Clone, Debug, PartialEq, Eq)]
pub struct BitMatrix {
    rows: Vec<BitVector>,
}

impl View for BitMatrix {
    type V = Seq<BitVector>;

    closed spec fn view(&self) -> Seq<BitVector> {
        self.rows@
    }
}

impl BitMatrix {
    /// Creates a new matrix from a list of rows.
    pub fn from_rows(rows: &Vec<BitVector>) -> (r: Self)
        ensures
            r@ == rows@,
    {
        let mut copied: Vec<BitVector> = Vec::new();
        let mut i: usize = 0;
        while i < rows.len()
            invariant
                i <= rows@.len(),
                copied@ =~= rows@.subrange(0, i as int),
            decreases rows@.len() - i,
        {
            copied.push(rows[i]);
            i += 1;
        }
        proof {
            assert(copied@ =~= rows@);
        }
        BitMatrix { rows: copied }
    }

    /// The number of rows in this matrix.
    pub fn height(&self) -> (r: usize)
        ensures
            r == self@.len(),
    {
        self.rows.len()
    }

    /// The rows of this matrix, in order.
    pub fn rows(&self) -> (r: &Vec<BitVector>)
        ensures
            r@ == self@,
    {
        &self.rows
    }
}

/// A `BitMatrix` with exactly `SECURITY_PARAMETER` rows.
#[derive(Clone, Debug, PartialEq, Eq)]
pub struct SquareBitMatrix {
    pub matrix: BitMatrix,
}

impl SquareBitMatrix {
    /// The defining shape: exactly `SECURITY_PARAMETER` rows.
    pub open spec fn wf(&self) -> bool {
        self.matrix@.len() == SECURITY_PARAMETER
    }

    /// Refines a matrix into a square one; fails on any other row count.
    pub fn try_from(matrix: BitMatrix) -> (r: Result<Self, ()>)
        ensures
            matrix@.len() == SECURITY_PARAMETER <==> r is Ok,
            r matches Ok(s) ==> s.matrix@ == matrix@ && s.wf(),
    {
        if matrix.height() != SECURITY_PARAMETER {
            return Err(());
        }
        Ok(SquareBitMatrix { matrix })
    }
}

/// The pseudorandom expansion of one matrix row: `len` bytes squeezed from
/// a sponge fed the fixed context string, the session id `sid`, and the
/// row's words.  A function of its arguments alone.
pub uninterp spec fn row_expansion(sid: Seq<u8>, row: Seq<u64>, len: nat) -> Seq<u8>;

/// Expands one row to `len` pseudorandom bytes.
///
/// Relies on `ck_meow::Meow` as a deterministic sponge: after absorbing the
/// context string, the session id and the row's words, `prf` squeezes a byte
/// stream that is a function of those inputs alone.
#[verifier::external_body]
fn expand_row(sid: &[u8], row: &BitVector, len: usize) -> (r: Vec<u8>)
    ensures
        r@ == row_expansion(sid@, row@, len as nat),
        r@.len() == len,
{
    let mut meow = ck_meow::Meow::new(b"cait-sith v0.1.0 correlated OT PRG");
    meow.meta_ad(b"sid", false);
    meow.ad(sid, false);
    meow.meta_ad(b"row", false);
    meow.ad(b"", false);
    meow.ad(&row.words[0].to_le_bytes(), true);
    meow.ad(&row.words[1].to_le_bytes(), true);
    meow.ad(&row.words[2].to_le_bytes(), true);
    meow.ad(&row.words[3].to_le_bytes(), true);
    let mut out = vec![0u8; len];
    meow.prf(&mut out, false);
    out
}

/// Bit `(i, j)` of the transpose of the expanded matrix: bit `i % 8` of
/// byte `i / 8` of the expansion of row `j` to `(rows + 7) / 8` bytes.
pub open spec fn expansion_bit(sid: Seq<u8>, m: Seq<BitVector>, rows: int, i: int, j: int) -> bool {
    byte_bit(row_expansion(sid, m[j]@, (((rows + 7) / 8) as nat))[i / 8], (i % 8) as u8)
}

/// The word whose bit `b`, for `b < n`, is
/// `expansion_bit(sid, m, rows, i, w * 64 + b)`, assembled low bit first.
pub open spec fn transposed_word(
    sid: Seq<u8>,
    m: Seq<BitVector>,
    rows: int,
    i: int,
    w: int,
    n: nat,
) -> u64
    decreases n,
{
    if n == 0 {
        0u64
    } else {
        transposed_word(sid, m, rows, i, w, (n - 1) as nat)
            | (if expansion_bit(sid, m, rows, i, w * 64 + n - 1) {
                1u64 << ((n - 1) as u64)
            } else {
                0u64
            })
    }
}

/// Bit `k` of the assembled word is the expansion bit it was built from.
proof fn lemma_transposed_word_bit(
    sid: Seq<u8>,
    m: Seq<BitVector>,
    rows: int,
    i: int,
    w: int,
    n: nat,
    k: u64,
)
    requires
        n <= 64,
        k < 64,
    ensures
        word_bit(transposed_word(sid, m, rows, i, w, n), k)
            == (k < n && expansion_bit(sid, m, rows, i, w * 64 + k)),
    decreases n,
{
    if n == 0 {
        assert(!word_bit(0u64, k)) by (bit_vector);
    } else {
        lemma_transposed_word_bit(sid, m, rows, i, w, (n - 1) as nat, k);
        let prev = transposed_word(sid, m, rows, i, w, (n - 1) as nat);
        let mm = (n - 1) as u64;
        let x: u64 = if expansion_bit(sid, m, rows, i, w * 64 + n - 1) {
            1u64 << mm
        } else {
            0u64
        };
        assert(word_bit(prev | x, k) == (word_bit(prev, k) || (k == mm && x != 0)))
            by (bit_vector)
            requires
                k < 64,
                mm < 64,
                x == 1u64 << mm || x == 0,
        ;
        assert((1u64 << mm) != 0) by (bit_vector)
            requires
                mm < 64,
        ;
    }
}

/// Builds the output word for row `i`, word position `w`: bit `b` is bit
/// `i` of the expansion of input row `w * 64 + b`.
fn build_word(
    exps: &Vec<Vec<u8>>,
    row8: usize,
    i: usize,
    w: usize,
    Ghost(sid): Ghost<Seq<u8>>,
    Ghost(m): Ghost<Seq<BitVector>>,
    Ghost(rows): Ghost<int>,
) -> (r: u64)
    requires
        w < SEC_PARAM_64,
        exps@.len() == SECURITY_PARAMETER,
        i < rows,
        row8 == (rows + 7) / 8,
        i / 8 < row8,
        forall|j: int| 0 <= j < SECURITY_PARAMETER ==> (#[trigger] exps@[j])@
            == row_expansion(sid, m[j]@, row8 as nat),
        forall|j: int| 0 <= j < SECURITY_PARAMETER ==> (#[trigger] exps@[j])@.len() == row8,
    ensures
        r == transposed_word(sid, m, rows, i as int, w as int, 64),
{
    let mut word: u64 = 0;
    let mut b: usize = 0;
    while b < 64
        invariant
            b <= 64,
            w < SEC_PARAM_64,
            exps@.len() == SECURITY_PARAMETER,
            i < rows,
            row8 == (rows + 7) / 8,
            i / 8 < row8,
            forall|j: int| 0 <= j < SECURITY_PARAMETER ==> (#[trigger] exps@[j])@
                == row_expansion(sid, m[j]@, row8 as nat),
            forall|j: int| 0 <= j < SECURITY_PARAMETER ==> (#[trigger] exps@[j])@.len() == row8,
            word == transposed_word(sid, m, rows, i as int, w as int, b as nat),
        decreases 64 - b,
    {
        let j = w * 64 + b;
        let byte = exps[j][i / 8];
        let sh: u8 = (i % 8) as u8;
        let c: u64 = ((byte >> sh) & 1) as u64;
        let bb = b as u64;
        proof {
            assert((c == 0 || c == 1) && (c == 1 <==> byte_bit(byte, sh))) by (bit_vector)
                requires
                    c == ((byte >> sh) & 1) as u64,
            ;
            assert(byte == row_expansion(sid, m[j as int]@, row8 as nat)[i as int / 8]);
            assert(byte_bit(byte, sh) == expansion_bit(sid, m, rows, i as int, j as int));
            assert((c == 1 ==> (c << bb) == (1u64 << bb)) && (c == 0 ==> (c << bb) == 0u64))
                by (bit_vector);
        }
        word = word | (c << bb);
        b += 1;
        proof {
            assert(word == transposed_word(sid, m, rows, i as int, w as int, b as nat));
        }
    }
    word
}

impl SquareBitMatrix {
    /// Expands each of the `SECURITY_PARAMETER` rows to `rows` bits and
    /// transposes the result: the output has `rows` rows of
    /// `SECURITY_PARAMETER` columns, and bit `j` of output row `i` is bit
    /// `i` of the expansion of input row `j`.  The output is a function of
    /// `(self, sid, rows)` alone, so identical inputs give identical output.
    pub fn expand_transpose(&self, sid: &[u8], rows: usize) -> (out: BitMatrix)
        requires
            self.wf(),
            rows <= usize::MAX - 7,
        ensures
            out@.len() == rows,
            forall|i: int| 0 <= i < rows ==> (#[trigger] out@[i])@.len() == SEC_PARAM_64,
            forall|i: int, wi: int| 0 <= i < rows && 0 <= wi < SEC_PARAM_64 ==>
                out@[i]@[wi] == #[trigger] transposed_word(sid@, self.matrix@, rows as int, i, wi, 64),
            forall|i: int, j: int| 0 <= i < rows && 0 <= j < SECURITY_PARAMETER ==>
                #[trigger] bv_bit(out@[i]@, j) == expansion_bit(sid@, self.matrix@, rows as int, i, j),
    {
        let row8 = (rows + 7) / 8;

        let mut exps: Vec<Vec<u8>> = Vec::new();
        let mut j: usize = 0;
        while j < SECURITY_PARAMETER
            invariant
                j <= SECURITY_PARAMETER,
                self.wf(),
                rows <= usize::MAX - 7,
                row8 == (rows + 7) / 8,
                exps@.len() == j,
                forall|k: int| 0 <= k < j ==> (#[trigger] exps@[k])@
                    == row_expansion(sid@, self.matrix@[k]@, row8 as nat),
                forall|k: int| 0 <= k < j ==> (#[trigger] exps@[k])@.len() == row8,
            decreases SECURITY_PARAMETER - j,
        {
            let row = self.matrix.rows()[j];
            exps.push(expand_row(sid, &row, row8));
            j += 1;
        }

        let mut out_rows: Vec<BitVector> = Vec::new();
        let mut i: usize = 0;
        while i < rows
            invariant
                i <= rows,
                self.wf(),
                rows <= usize::MAX - 7,
                row8 == (rows + 7) / 8,
                exps@.len() == SECURITY_PARAMETER,
                forall|k: int| 0 <= k < SECURITY_PARAMETER ==> (#[trigger] exps@[k])@
                    == row_expansion(sid@, self.matrix@[k]@, row8 as nat),
                forall|k: int| 0 <= k < SECURITY_PARAMETER ==> (#[trigger] exps@[k])@.len() == row8,
                out_rows@.len() == i,
                forall|ii: int| 0 <= ii < i ==> (#[trigger] out_rows@[ii])@.len() == SEC_PARAM_64,
                forall|ii: int, wi: int| 0 <= ii < i && 0 <= wi < SEC_PARAM_64 ==>
                    out_rows@[ii]@[wi]
                        == #[trigger] transposed_word(sid@, self.matrix@, rows as int, ii, wi, 64),
                forall|ii: int, jj: int| 0 <= ii < i && 0 <= jj < SECURITY_PARAMETER ==>
                    #[trigger] bv_bit(out_rows@[ii]@, jj)
                        == expansion_bit(sid@, self.matrix@, rows as int, ii, jj),
            decreases rows - i,
        {
            assert(i / 8 < row8);
            let ghost gsid = sid@;
            let ghost gm = self.matrix@;
            let ghost grows = rows as int;
            let w0 = build_word(&exps, row8, i, 0, Ghost(gsid), Ghost(gm), Ghost(grows));
            let w1 = build_word(&exps, row8, i, 1, Ghost(gsid), Ghost(gm), Ghost(grows));
            let w2 = build_word(&exps, row8, i, 2, Ghost(gsid), Ghost(gm), Ghost(grows));
            let w3 = build_word(&exps, row8, i, 3, Ghost(gsid), Ghost(gm), Ghost(grows));
            let bv = BitVector { words: [w0, w1, w2, w3] };
            proof {
                assert forall|jj: int| 0 <= jj < SECURITY_PARAMETER implies
                    bv_bit(bv@, jj) == expansion_bit(gsid, gm, grows, i as int, jj)
                by {
                    let wi = jj / 64;
                    let bb = jj % 64;
                    assert(jj == wi * 64 + bb);
                    assert(0 <= wi < 4);
                    lemma_transposed_word_bit(gsid, gm, grows, i as int, wi, 64, bb as u64);
                }
            }
            out_rows.push(bv);
            i += 1;
        }

        BitMatrix { rows: out_rows }
    }
}

/// The expansion determines the transpose completely: any two outputs whose
/// words both equal the assembled `transposed_word` of the same inputs are
/// equal row for row.
pub proof fn lemma_expand_transpose_deterministic(
    sid: Seq<u8>,
    m: Seq<BitVector>,
    rows: int,
    out1: Seq<BitVector>,
    out2: Seq<BitVector>,
)
    requires
        out1.len() == rows,
        out2.len() == rows,
        forall|i: int| 0 <= i < rows ==> (#[trigger] out1[i])@.len() == SEC_PARAM_64,
        forall|i: int| 0 <= i < rows ==> (#[trigger] out2[i])@.len() == SEC_PARAM_64,
        forall|i: int, wi: int| 0 <= i < rows && 0 <= wi < SEC_PARAM_64 ==>
            out1[i]@[wi] == #[trigger] transposed_word(sid, m, rows, i, wi, 64),
        forall|i: int, wi: int| 0 <= i < rows && 0 <= wi < SEC_PARAM_64 ==>
            out2[i]@[wi] == transposed_word(sid, m, rows, i, wi, 64),
    ensures
        forall|i: int| 0 <= i < rows ==> out1[i]@ == out2[i]@,
{
    assert forall|i: int| 0 <= i < rows implies out1[i]@ == out2[i]@ by {
        assert forall|wi: int| 0 <= wi < SEC_PARAM_64 implies out1[i]@[wi] == out2[i]@[wi] by {
            assert(out1[i]@[wi] == transposed_word(sid, m, rows, i, wi, 64));
            assert(out2[i]@[wi] == transposed_word(sid, m, rows, i, wi, 64));
        }
        assert(out1[i]@ =~= out2[i]@);
    }
}

} // verus!
