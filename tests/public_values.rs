use public_values::{
    Felt, PublicValues, PublicValuesError, Word, BABY_BEAR_ORDER, PROOF_MAX_NUM_PVS,
    PV_DIGEST_NUM_WORDS, PV_NUM_ELEMENTS, WORD_SIZE,
};

fn native(digest: [u32; 8], shard: u32, start_pc: u32, next_pc: u32, exit_code: u32) -> PublicValues<u32, u32> {
    PublicValues { committed_value_digest: digest, shard, start_pc, next_pc, exit_code }
}

fn values(v: &[Felt]) -> Vec<u32> {
    v.iter().map(|f| f.as_canonical_u32()).collect()
}

#[test]
fn test_public_values_digest_num_words_consistency_zkvm() {
    assert_eq!(PV_DIGEST_NUM_WORDS, 8);
}

#[test]
fn content_length_is_digest_bytes_plus_four_scalars() {
    assert_eq!(WORD_SIZE, 4);
    assert_eq!(PV_NUM_ELEMENTS, 36);
    assert!(PROOF_MAX_NUM_PVS >= PV_NUM_ELEMENTS);
}

#[test]
fn example_zero_digest_layout() {
    let pv = native([0; 8], 3, 0x1000, 0x1004, 0);
    let v = pv.to_vec();
    assert_eq!(v.len(), PROOF_MAX_NUM_PVS);
    let vals = values(&v);
    for k in 0..32 {
        assert_eq!(vals[k], 0);
    }
    assert_eq!(&vals[32..36], &[3, 0x1000, 0x1004, 0]);
    assert_eq!(v[32], Felt::from_u32(3));
    for k in 36..PROOF_MAX_NUM_PVS {
        assert_eq!(v[k], Felt::zero());
    }
}

#[test]
fn digest_words_are_split_little_endian() {
    let mut digest = [0u32; 8];
    digest[0] = 0x0403_0201;
    digest[7] = 0xFFEE_DDCC;
    let vals = values(&native(digest, 0, 0, 0, 0).to_vec());
    assert_eq!(&vals[0..4], &[1, 2, 3, 4]);
    assert_eq!(&vals[28..32], &[0xCC, 0xDD, 0xEE, 0xFF]);
}

#[test]
fn padding_is_zero_and_fills_to_max() {
    let pv = native([u32::MAX; 8], 7, 8, 9, 10);
    let vals = values(&pv.to_vec());
    assert_eq!(vals.len(), PROOF_MAX_NUM_PVS);
    assert!(vals[36..].iter().all(|x| *x == 0));
    assert!(vals[..32].iter().all(|x| *x == 0xFF));
}

#[test]
fn overflow_boundary() {
    let pv = native([5; 8], 1, 2, 3, 4);
    assert_eq!(pv.to_vec_with_max(PV_NUM_ELEMENTS - 1), Err(PublicValuesError::EncodingOverflow));
    assert_eq!(pv.to_vec_with_max(0), Err(PublicValuesError::EncodingOverflow));
    let exact = pv.to_vec_with_max(PV_NUM_ELEMENTS).unwrap();
    assert_eq!(exact.len(), PV_NUM_ELEMENTS);
    assert_eq!(values(&exact[32..]), vec![1, 2, 3, 4]);
    let padded = pv.to_vec_with_max(PROOF_MAX_NUM_PVS).unwrap();
    assert_eq!(&padded[..PV_NUM_ELEMENTS], &exact[..]);
    assert_eq!(padded, pv.to_vec());
}

#[test]
fn truncation_boundary() {
    let short: Vec<Felt> = (0..35u8).map(Felt::from_u8).collect();
    assert_eq!(PublicValues::from_vec(short), Err(PublicValuesError::TruncatedInput));
    assert_eq!(PublicValues::from_vec(Vec::new()), Err(PublicValuesError::TruncatedInput));
    let exact: Vec<Felt> = (0..36u8).map(Felt::from_u8).collect();
    let pv = PublicValues::from_vec(exact).unwrap();
    assert_eq!(pv.committed_value_digest[1], Word([4u8, 5, 6, 7].map(Felt::from_u8)));
    assert_eq!(pv.shard, Felt::from_u8(32));
    assert_eq!(pv.exit_code, Felt::from_u8(35));
}

#[test]
fn unpacking_ignores_padding() {
    let mut data: Vec<Felt> = (0..36u8).map(Felt::from_u8).collect();
    let plain = PublicValues::from_vec(data.clone()).unwrap();
    data.extend((0..4u32).map(|i| Felt::from_u32(1000 + i)));
    assert_eq!(PublicValues::from_vec(data).unwrap(), plain);
}

#[test]
fn round_trip() {
    let digest = [0xDEAD_BEEF, 0, 1, 0xFFFF_FFFF, 0x1234_5678, 0x8000_0000, 42, 0x00FF_00FF];
    let pv = native(digest, 12, 0x0020_0800, 0x0020_0804, 1);
    let back = PublicValues::from_vec(pv.to_vec()).unwrap();
    assert_eq!(back.shard.as_canonical_u32(), 12);
    assert_eq!(back.start_pc.as_canonical_u32(), 0x0020_0800);
    assert_eq!(back.next_pc.as_canonical_u32(), 0x0020_0804);
    assert_eq!(back.exit_code.as_canonical_u32(), 1);
    let bytes = back.commit_digest_bytes();
    for i in 0..8 {
        let word = u32::from_le_bytes([bytes[4 * i], bytes[4 * i + 1], bytes[4 * i + 2], bytes[4 * i + 3]]);
        assert_eq!(word, digest[i]);
    }
}

#[test]
fn scalars_are_reduced_into_the_field() {
    assert_eq!(BABY_BEAR_ORDER, 2013265921);
    assert_eq!(Felt::from_u32(u32::MAX).as_canonical_u32(), 268435453);
    assert_eq!(Felt::from_u32(BABY_BEAR_ORDER), Felt::zero());
    assert_eq!(Felt::from_u32(BABY_BEAR_ORDER + 5).as_canonical_u32(), 5);
    let pv = native([0; 8], u32::MAX, BABY_BEAR_ORDER, BABY_BEAR_ORDER - 1, 0);
    let vals = values(&pv.to_vec());
    assert_eq!(&vals[32..36], &[268435453, 0, BABY_BEAR_ORDER - 1, 0]);
}

#[test]
fn digest_extraction_single_ff() {
    for k in 0..32 {
        let mut data = vec![Felt::zero(); PV_NUM_ELEMENTS];
        data[k] = Felt::from_u8(0xFF);
        let pv = PublicValues::from_vec(data).unwrap();
        let bytes = pv.commit_digest_bytes();
        assert_eq!(bytes.len(), 32);
        for (i, b) in bytes.iter().enumerate() {
            assert_eq!(*b, if i == k { 0xFF } else { 0x00 });
        }
    }
}

#[test]
fn digest_extraction_keeps_low_byte() {
    let mut data = vec![Felt::zero(); PV_NUM_ELEMENTS];
    data[5] = Felt::from_u32(0x1_0203);
    let bytes = PublicValues::from_vec(data).unwrap().commit_digest_bytes();
    assert_eq!(bytes[5], 0x03);
}

#[test]
fn word_from_u32_bytes() {
    let w = Word::from_u32(0xA1B2_C3D4);
    assert_eq!(w.0.map(|f| f.as_canonical_u32()), [0xD4, 0xC3, 0xB2, 0xA1]);
}
