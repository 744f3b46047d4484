//! Records the proof-system command lines read, and the decoding of the
//! transaction ids they carry.
//!
//! The records themselves are plain data: reading them from disk belongs to
//! the surrounding binary. The logic verified here is the decoding of a
//! transaction id from its human-readable form: 64 hexadecimal digits decode
//! to 32 bytes, and the bytes are then reversed, because the display form
//! writes the 256-bit number's bytes most significant first.

use vstd::prelude::*;

verus! {

/// Data required to set up a transaction-chain-proof circuit.
#[derive(Clone, Debug)]
pub struct SetupData {
    /// Index of the tracked output in each transaction of the chain.
    pub chain_index: u32,
}

/// Parameters of the transaction chain.
#[derive(Clone, Copy, Debug, PartialEq, Eq, Structural)]
pub struct ChainParameters {
    /// Index of the tracked output in each transaction of the chain.
    pub chain_index: u32,
}

/// Public inputs of a proof: transaction ids in hexadecimal form.
#[derive(Clone, Debug)]
pub struct PublicInputs {
    /// Transaction id of the outpoint being spent.
    pub outpoint_txid: String,
    /// Transaction id of the chain's first transaction.
    pub genesis_txid: String,
}

/// Witness of a proof: a serialized transaction and the path of the prior
/// proof, either of which may be empty.
#[derive(Clone, Debug)]
pub struct Witness {
    /// The spending transaction in hexadecimal form, or empty.
    pub tx: String,
    /// Where the prior proof in the chain is stored, or empty.
    pub prior_proof_path: String,
}

/// Data required to generate a transaction-chain proof.
#[derive(Clone, Debug)]
pub struct ProvingData {
    /// Parameters of the transaction chain.
    pub chain_parameters: ChainParameters,
    /// Public inputs of the proof.
    pub public_inputs: PublicInputs,
    /// Witness of the proof.
    pub witness: Witness,
    /// Name under which the proof is stored.
    pub proof_name: String,
}

/// Data required to verify a transaction-chain proof.
#[derive(Clone, Debug)]
pub struct VerifyingData {
    /// Parameters of the transaction chain.
    pub chain_parameters: ChainParameters,
    /// Public inputs of the proof.
    pub public_inputs: PublicInputs,
    /// Where the proof to verify is stored.
    pub proof_path: String,
}

/// An outpoint: a transaction id in raw byte order and an output index.
#[derive(Clone, Debug)]
pub struct TxOutPoint {
    /// The 32 raw bytes of the transaction id.
    pub hash: Vec<u8>,
    /// Index of the output within that transaction.
    pub index: u32,
}

/// The public input of a transaction-chain proof with its transaction ids
/// decoded to raw bytes.
#[derive(Clone, Debug)]
pub struct ChainPublicInput {
    /// The outpoint whose spending the proof tracks.
    pub outpoint: TxOutPoint,
    /// The 32 raw bytes of the chain's first transaction id.
    pub genesis_txid: Vec<u8>,
}

/// Whether a byte is an ASCII hexadecimal digit.
pub open spec fn is_hex_digit(b: u8) -> bool {
    (0x30 <= b <= 0x39) || (0x41 <= b <= 0x46) || (0x61 <= b <= 0x66)
}

/// Numeric value of an ASCII hexadecimal digit.
pub open spec fn hex_digit_val(b: u8) -> nat
    recommends
        is_hex_digit(b),
{
    if 0x30 <= b <= 0x39 {
        (b - 0x30) as nat
    } else if 0x41 <= b <= 0x46 {
        (b - 0x41 + 10) as nat
    } else if 0x61 <= b <= 0x66 {
        (b - 0x61 + 10) as nat
    } else {
        0
    }
}

/// A well-formed transaction id in display form: exactly 64 hexadecimal
/// digits.
pub open spec fn valid_txid_hex(s: Seq<u8>) -> bool {
    s.len() == 64 && forall|i: int| 0 <= i < 64 ==> is_hex_digit(#[trigger] s[i])
}

/// The raw bytes of a transaction id: each pair of hex digits is one byte,
/// and the 32 bytes are reversed.
pub open spec fn txid_bytes(s: Seq<u8>) -> Seq<u8>
    recommends
        valid_txid_hex(s),
{
    Seq::new(
        32,
        |i: int| (16 * hex_digit_val(s[2 * (31 - i)]) + hex_digit_val(s[2 * (31 - i) + 1])) as u8,
    )
}

/// Whether a byte is an ASCII hexadecimal digit.
pub fn hex_digit(b: u8) -> (r: bool)
    ensures
        r == is_hex_digit(b),
{
    (0x30 <= b && b <= 0x39) || (0x41 <= b && b <= 0x46) || (0x61 <= b && b <= 0x66)
}

/// Numeric value of an ASCII hexadecimal digit.
pub fn hex_digit_value(b: u8) -> (r: u8)
    requires
        is_hex_digit(b),
    ensures
        r as nat == hex_digit_val(b),
        r < 16,
{
    if 0x30 <= b && b <= 0x39 {
        b - 0x30
    } else if 0x41 <= b && b <= 0x46 {
        b - 0x41 + 10
    } else {
        b - 0x61 + 10
    }
}

/// Decode a transaction id from its 64-digit hexadecimal display form into
/// its 32 raw bytes, reversing the byte order; `None` exactly when the input
/// is not 64 hexadecimal digits.
pub fn decode_txid(s: &[u8]) -> (r: Option<Vec<u8>>)
    ensures
        match r {
            Some(bytes) => valid_txid_hex(s@) && bytes@ == txid_bytes(s@),
            None => !valid_txid_hex(s@),
        },
{
    if s.len() != 64 {
        return None;
    }
    for j in 0..64usize
        invariant
            s@.len() == 64,
            forall|k: int| 0 <= k < j ==> is_hex_digit(#[trigger] s@[k]),
    {
        if !hex_digit(s[j]) {
            return None;
        }
    }
    let mut out: Vec<u8> = Vec::new();
    for i in 0..32usize
        invariant
            s@.len() == 64,
            valid_txid_hex(s@),
            out@.len() == i,
            forall|k: int| 0 <= k < i ==> out@[k] == txid_bytes(s@)[k],
    {
        let hi = hex_digit_value(s[62 - 2 * i]);
        let lo = hex_digit_value(s[63 - 2 * i]);
        proof {
            assert(2 * (31 - i as int) == 62 - 2 * i as int);
            assert(2 * (31 - i as int) + 1 == 63 - 2 * i as int);
        }
        out.push(16 * hi + lo);
    }
    proof {
        assert(out@ =~= txid_bytes(s@));
    }
    Some(out)
}

/// Assemble the raw public input of a transaction-chain proof from the two
/// transaction ids in display form and the chain index; `None` exactly when
/// either id is not 64 hexadecimal digits.
pub fn chain_public_input(outpoint_txid: &[u8], genesis_txid: &[u8], chain_index: u32) -> (r:
    Option<ChainPublicInput>)
    ensures
        match r {
            Some(p) => {
                &&& valid_txid_hex(outpoint_txid@)
                &&& valid_txid_hex(genesis_txid@)
                &&& p.outpoint.hash@ == txid_bytes(outpoint_txid@)
                &&& p.outpoint.index == chain_index
                &&& p.genesis_txid@ == txid_bytes(genesis_txid@)
            },
            None => !valid_txid_hex(outpoint_txid@) || !valid_txid_hex(genesis_txid@),
        },
{
    let hash = match decode_txid(outpoint_txid) {
        Some(h) => h,
        None => {
            return None;
        },
    };
    let genesis = match decode_txid(genesis_txid) {
        Some(g) => g,
        None => {
            return None;
        },
    };
    Some(ChainPublicInput { outpoint: TxOutPoint { hash, index: chain_index }, genesis_txid: genesis })
}

} // verus!
