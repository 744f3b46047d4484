//! Transaction-id decoding against the chain library's own decoder.

use chain_gang::util::Hash256;
use zk_inference::records::{
    chain_public_input, decode_txid, ChainParameters, ProvingData, PublicInputs, SetupData,
    VerifyingData, Witness,
};

const TXID: &str = "4a5e1e4baab89f3a32518a88c31bc87f618f76673e2cc77ab2127b7afdeda33b";

#[test]
fn decode_reverses_byte_order() {
    let decoded = decode_txid("00000000000000000000000000000000000000000000000000000000000000ff"
        .as_bytes())
        .unwrap();
    assert_eq!(decoded.len(), 32);
    assert_eq!(decoded[0], 0xff);
    assert!(decoded[1..].iter().all(|&b| b == 0));
}

#[test]
fn decode_matches_chain_library() {
    let ours = decode_txid(TXID.as_bytes()).unwrap();
    let theirs = Hash256::decode(TXID).unwrap();
    assert_eq!(ours.as_slice(), &theirs.0[..]);
}

#[test]
fn decode_accepts_both_digit_cases() {
    let upper = TXID.to_uppercase();
    assert_eq!(decode_txid(upper.as_bytes()).unwrap(), decode_txid(TXID.as_bytes()).unwrap());
}

#[test]
fn decode_rejects_wrong_length() {
    assert_eq!(decode_txid("aabb".as_bytes()), None);
    assert_eq!(decode_txid("".as_bytes()), None);
    let long = format!("{}00", TXID);
    assert_eq!(decode_txid(long.as_bytes()), None);
}

#[test]
fn decode_rejects_non_hex_digits() {
    let bad = TXID.replace('4', "g");
    assert_eq!(decode_txid(bad.as_bytes()), None);
    assert!(Hash256::decode(&bad).is_err());
}

#[test]
fn public_input_carries_index_and_hashes() {
    let genesis = "0000000000000000000000000000000000000000000000000000000000000011";
    let p = chain_public_input(TXID.as_bytes(), genesis.as_bytes(), 3).unwrap();
    assert_eq!(p.outpoint.index, 3);
    assert_eq!(p.outpoint.hash.as_slice(), &Hash256::decode(TXID).unwrap().0[..]);
    assert_eq!(p.genesis_txid.as_slice(), &Hash256::decode(genesis).unwrap().0[..]);
}

#[test]
fn public_input_rejects_bad_txid() {
    assert!(chain_public_input("xyz".as_bytes(), TXID.as_bytes(), 0).is_none());
    assert!(chain_public_input(TXID.as_bytes(), "xyz".as_bytes(), 0).is_none());
}

#[test]
fn records_hold_their_fields() {
    let setup = SetupData { chain_index: 1 };
    assert_eq!(setup.chain_index, 1);
    let proving = ProvingData {
        chain_parameters: ChainParameters { chain_index: 2 },
        public_inputs: PublicInputs {
            outpoint_txid: TXID.to_string(),
            genesis_txid: TXID.to_string(),
        },
        witness: Witness { tx: String::new(), prior_proof_path: String::new() },
        proof_name: "chain_proof".to_string(),
    };
    let verifying = VerifyingData {
        chain_parameters: proving.chain_parameters,
        public_inputs: proving.public_inputs.clone(),
        proof_path: "chain_proof".to_string(),
    };
    assert_eq!(proving.chain_parameters.chain_index, 2);
    assert_eq!(verifying.public_inputs.outpoint_txid, TXID);
    let p = chain_public_input(
        proving.public_inputs.outpoint_txid.as_bytes(),
        proving.public_inputs.genesis_txid.as_bytes(),
        proving.chain_parameters.chain_index,
    )
    .unwrap();
    assert_eq!(p.outpoint.index, 2);
}
