use vstd::prelude::*;
use crate::field::{Felt, BABY_BEAR_ORDER};
use crate::word::{le_byte, lemma_merge_le_bytes, Word, WORD_SIZE};

verus! {

/// The number of words in the committed value digest.
pub const PV_DIGEST_NUM_WORDS: usize = 8;

/// The number of elements that carry content: the digest's bytes and four scalars.
pub const PV_NUM_ELEMENTS: usize = PV_DIGEST_NUM_WORDS * WORD_SIZE + 4;

/// The length of the packed public values vector of a shard proof.
pub const PROOF_MAX_NUM_PVS: usize = 40;

/// Why public values could not be packed or unpacked.
#[derive(Clone, Copy, Debug, PartialEq, Eq, Structural)]
pub enum PublicValuesError {
    /// The content is longer than the packed vector may be.
    EncodingOverflow,
    /// The vector is shorter than the content it must hold.
    TruncatedInput,
}

/// All of a shard proof's public values: digest words of type `W`, scalars of type `T`.
#[derive(Clone, Copy, Debug, PartialEq, Eq)]
pub struct PublicValues<W, T> {
    /// The hash of all the bytes that the guest program has written to public values.
    pub committed_value_digest: [W; PV_DIGEST_NUM_WORDS],
    /// The shard number.
    pub shard: T,
    /// The shard's start program counter.
    pub start_pc: T,
    /// The expected start program counter for the next shard.
    pub next_pc: T,
    /// The exit code of the program. Only meaningful once halt has been executed.
    pub exit_code: T,
}

impl PublicValues<u32, u32> {
    /// Every scalar is already a canonical field representative.
    pub open spec fn is_canonical(self) -> bool {
        &&& self.shard < BABY_BEAR_ORDER
        &&& self.start_pc < BABY_BEAR_ORDER
        &&& self.next_pc < BABY_BEAR_ORDER
        &&& self.exit_code < BABY_BEAR_ORDER
    }

    /// The value of element `k` of the packed vector: the digest's bytes in
    /// order, then the four scalars reduced into the field, then zeros.
    pub open spec fn encoded_value(self, k: int) -> nat {
        if k < PV_DIGEST_NUM_WORDS * WORD_SIZE {
            le_byte(self.committed_value_digest@[k / 4], k % 4)
        } else if k == 32 {
            (self.shard % BABY_BEAR_ORDER) as nat
        } else if k == 33 {
            (self.start_pc % BABY_BEAR_ORDER) as nat
        } else if k == 34 {
            (self.next_pc % BABY_BEAR_ORDER) as nat
        } else if k == 35 {
            (self.exit_code % BABY_BEAR_ORDER) as nat
        } else {
            0
        }
    }

    /// The content of the packed vector, without padding.
    fn encode_content(&self) -> (r: Vec<Felt>)
        ensures
            r@.len() == PV_NUM_ELEMENTS,
            forall|k: int| 0 <= k < PV_NUM_ELEMENTS ==> #[trigger] r@[k].value() == self.encoded_value(k),
    {
        let mut ret: Vec<Felt> = Vec::new();
        let mut i: usize = 0;
        while i < PV_DIGEST_NUM_WORDS
            invariant
                i <= PV_DIGEST_NUM_WORDS,
                ret@.len() == WORD_SIZE * i,
                forall|k: int| 0 <= k < ret@.len() ==> #[trigger] ret@[k].value() == self.encoded_value(k),
            decreases PV_DIGEST_NUM_WORDS - i,
        {
            let w = Word::from_u32(self.committed_value_digest[i]);
            let mut j: usize = 0;
            while j < WORD_SIZE
                invariant
                    i < PV_DIGEST_NUM_WORDS,
                    j <= WORD_SIZE,
                    ret@.len() == WORD_SIZE * i + j,
                    forall|j2: int| 0 <= j2 < WORD_SIZE ==> #[trigger] w.0@[j2].value() == le_byte(self.committed_value_digest@[i as int], j2),
                    forall|k: int| 0 <= k < ret@.len() ==> #[trigger] ret@[k].value() == self.encoded_value(k),
                decreases WORD_SIZE - j,
            {
                let ghost k = ret@.len() as int;
                assert(k / 4 == i && k % 4 == j);
                ret.push(w.0[j]);
                j = j + 1;
            }
            i = i + 1;
        }
        ret.push(Felt::from_u32(self.shard));
        ret.push(Felt::from_u32(self.start_pc));
        ret.push(Felt::from_u32(self.next_pc));
        ret.push(Felt::from_u32(self.exit_code));
        ret
    }

    /// Packs these values into exactly `max_num_pvs` field elements: the
    /// digest's bytes, the four scalars, then zeros. Fails when the content
    /// does not fit.
    pub fn to_vec_with_max(&self, max_num_pvs: usize) -> (r: Result<Vec<Felt>, PublicValuesError>)
        ensures
            r is Err <==> max_num_pvs < PV_NUM_ELEMENTS,
            r matches Err(e) ==> e == PublicValuesError::EncodingOverflow,
            r matches Ok(v) ==> v@.len() == max_num_pvs,
            r matches Ok(v) ==> forall|k: int| 0 <= k < max_num_pvs ==> #[trigger] v@[k].value() == self.encoded_value(k),
            r matches Ok(v) ==> forall|k: int| PV_NUM_ELEMENTS <= k < max_num_pvs ==> #[trigger] v@[k].value() == 0,
    {
        let mut ret = self.encode_content();
        if ret.len() > max_num_pvs {
            return Err(PublicValuesError::EncodingOverflow);
        }
        while ret.len() < max_num_pvs
            invariant
                PV_NUM_ELEMENTS <= ret@.len() <= max_num_pvs,
                forall|k: int| 0 <= k < ret@.len() ==> #[trigger] ret@[k].value() == self.encoded_value(k),
            decreases max_num_pvs - ret@.len(),
        {
            ret.push(Felt::zero());
        }
        Ok(ret)
    }

    /// Packs these values into `PROOF_MAX_NUM_PVS` field elements, padded with zeros.
    pub fn to_vec(&self) -> (r: Vec<Felt>)
        ensures
            r@.len() == PROOF_MAX_NUM_PVS,
            forall|k: int| 0 <= k < PROOF_MAX_NUM_PVS ==> #[trigger] r@[k].value() == self.encoded_value(k),
            forall|k: int| PV_NUM_ELEMENTS <= k < PROOF_MAX_NUM_PVS ==> #[trigger] r@[k].value() == 0,
    {
        match self.to_vec_with_max(PROOF_MAX_NUM_PVS) {
            Ok(v) => v,
            Err(_) => {
                assert(false);
                Vec::new()
            },
        }
    }
}


impl PublicValues<Word<Felt>, Felt> {
    /// These values are what the first `PV_NUM_ELEMENTS` elements of `data`
    /// hold: the digest's words four elements each, then the four scalars.
    pub open spec fn is_decoding_of(self, data: Seq<Felt>) -> bool {
        &&& forall|i: int, j: int|
            0 <= i < PV_DIGEST_NUM_WORDS && 0 <= j < WORD_SIZE
                ==> #[trigger] self.committed_value_digest@[i].0@[j] == data[WORD_SIZE * i + j]
        &&& self.shard == data[32]
        &&& self.start_pc == data[33]
        &&& self.next_pc == data[34]
        &&& self.exit_code == data[35]
    }

    /// The word held by the four elements of `data` from `WORD_SIZE * i` on.
    fn word_at(data: &Vec<Felt>, i: usize) -> (r: Word<Felt>)
        requires
            i < PV_DIGEST_NUM_WORDS,
            data@.len() >= PV_NUM_ELEMENTS,
        ensures
            forall|j: int| 0 <= j < WORD_SIZE ==> #[trigger] r.0@[j] == data@[WORD_SIZE * i + j],
    {
        let base = WORD_SIZE * i;
        let r = Word([data[base], data[base + 1], data[base + 2], data[base + 3]]);
        assert(r.0@[0] == data@[base as int]);
        assert(r.0@[1] == data@[base + 1]);
        assert(r.0@[2] == data@[base + 2]);
        assert(r.0@[3] == data@[base + 3]);
        r
    }

    /// Unpacks a vector of field elements. The digest stays in word form;
    /// elements after the first `PV_NUM_ELEMENTS` are padding and are ignored.
    pub fn from_vec(data: Vec<Felt>) -> (r: Result<Self, PublicValuesError>)
        ensures
            r is Err <==> data@.len() < PV_NUM_ELEMENTS,
            r matches Err(e) ==> e == PublicValuesError::TruncatedInput,
            r matches Ok(pv) ==> pv.is_decoding_of(data@),
    {
        if data.len() < PV_NUM_ELEMENTS {
            return Err(PublicValuesError::TruncatedInput);
        }
        let committed_value_digest = [
            Self::word_at(&data, 0),
            Self::word_at(&data, 1),
            Self::word_at(&data, 2),
            Self::word_at(&data, 3),
            Self::word_at(&data, 4),
            Self::word_at(&data, 5),
            Self::word_at(&data, 6),
            Self::word_at(&data, 7),
        ];
        let pv = PublicValues {
            committed_value_digest,
            shard: data[32],
            start_pc: data[33],
            next_pc: data[34],
            exit_code: data[35],
        };
        assert forall|i: int, j: int|
            0 <= i < PV_DIGEST_NUM_WORDS && 0 <= j < WORD_SIZE implies
            #[trigger] pv.committed_value_digest@[i].0@[j] == data@[WORD_SIZE * i + j] by {
            assert(pv.committed_value_digest@[i] == committed_value_digest[i]);
        }
        Ok(pv)
    }

    /// The digest as little-endian bytes: the low byte of each element's
    /// canonical value, word by word.
    pub fn commit_digest_bytes(&self) -> (r: Vec<u8>)
        ensures
            r@.len() == PV_DIGEST_NUM_WORDS * WORD_SIZE,
            forall|k: int| 0 <= k < PV_DIGEST_NUM_WORDS * WORD_SIZE ==> #[trigger] r@[k] as nat
                == self.committed_value_digest@[k / 4].0@[k % 4].value() % 256,
    {
        let mut ret: Vec<u8> = Vec::new();
        let mut i: usize = 0;
        while i < PV_DIGEST_NUM_WORDS
            invariant
                i <= PV_DIGEST_NUM_WORDS,
                ret@.len() == WORD_SIZE * i,
                forall|k: int| 0 <= k < ret@.len() ==> #[trigger] ret@[k] as nat
                    == self.committed_value_digest@[k / 4].0@[k % 4].value() % 256,
            decreases PV_DIGEST_NUM_WORDS - i,
        {
            let w = &self.committed_value_digest[i];
            let mut j: usize = 0;
            while j < WORD_SIZE
                invariant
                    i < PV_DIGEST_NUM_WORDS,
                    j <= WORD_SIZE,
                    *w == self.committed_value_digest@[i as int],
                    ret@.len() == WORD_SIZE * i + j,
                    forall|k: int| 0 <= k < ret@.len() ==> #[trigger] ret@[k] as nat
                        == self.committed_value_digest@[k / 4].0@[k % 4].value() % 256,
                decreases WORD_SIZE - j,
            {
                let ghost k = ret@.len() as int;
                assert(k / 4 == i && k % 4 == j);
                let c = w.0[j].as_canonical_u32();
                ret.push((c % 256) as u8);
                j = j + 1;
            }
            i = i + 1;
        }
        ret
    }
}


/// Unpacking what packing produced gives the values back: the scalars
/// exactly, and each digest word once its bytes are merged, for every
/// native value whose scalars are canonical field representatives and every
/// packed vector long enough to hold the content.
pub proof fn lemma_round_trip(
    pv: PublicValues<u32, u32>,
    packed: Seq<Felt>,
    decoded: PublicValues<Word<Felt>, Felt>,
)
    requires
        pv.is_canonical(),
        packed.len() >= PV_NUM_ELEMENTS,
        forall|k: int| 0 <= k < packed.len() ==> #[trigger] packed[k].value() == pv.encoded_value(k),
        decoded.is_decoding_of(packed),
    ensures
        decoded.shard.value() == pv.shard,
        decoded.start_pc.value() == pv.start_pc,
        decoded.next_pc.value() == pv.next_pc,
        decoded.exit_code.value() == pv.exit_code,
        forall|i: int| 0 <= i < PV_DIGEST_NUM_WORDS ==> #[trigger] decoded.committed_value_digest@[i].merged()
            == pv.committed_value_digest@[i],
{
    assert(packed[32].value() == pv.encoded_value(32));
    assert(packed[33].value() == pv.encoded_value(33));
    assert(packed[34].value() == pv.encoded_value(34));
    assert(packed[35].value() == pv.encoded_value(35));
    assert forall|i: int| 0 <= i < PV_DIGEST_NUM_WORDS implies #[trigger] decoded.committed_value_digest@[i].merged()
        == pv.committed_value_digest@[i] by {
        let w = decoded.committed_value_digest@[i];
        let n = pv.committed_value_digest@[i];
        assert forall|j: int| 0 <= j < WORD_SIZE implies #[trigger] w.0@[j].value() == le_byte(n, j) by {
            assert(w.0@[j] == packed[WORD_SIZE * i + j]);
            assert(packed[WORD_SIZE * i + j].value() == pv.encoded_value(WORD_SIZE * i + j));
            assert((WORD_SIZE * i + j) / 4 == i && (WORD_SIZE * i + j) % 4 == j);
        }
        assert(w.0@[0].value() == le_byte(n, 0));
        assert(w.0@[1].value() == le_byte(n, 1));
        assert(w.0@[2].value() == le_byte(n, 2));
        assert(w.0@[3].value() == le_byte(n, 3));
        lemma_merge_le_bytes(n);
    }
}

} // verus!
