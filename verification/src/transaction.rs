//! Signed transactions, and the calls that they amount to.

use alloy_consensus::transaction::SignerRecoverable;
use alloy_consensus::{Transaction, TxEnvelope};
use alloy_primitives::hex;
use alloy_rlp::Decodable;
use vstd::prelude::*;
use crate::json::{json_model, null, text_value, Fields, JsonModel};
use crate::text::{all_digits, digit_value, owned, trim_hex_prefix, without_leading};

verus! {

/// The text behind a leading `0x` or `0X`, or the whole text where there is none.
pub open spec fn hex_digits(s: Seq<char>) -> Seq<char> {
    if s.len() >= 2 && s[0] == '0' && (s[1] == 'x' || s[1] == 'X') {
        s.skip(2)
    } else {
        s
    }
}

/// The bytes that a text stands for, two hexadecimal digits each.
pub open spec fn hex_bytes(s: Seq<char>) -> Option<Seq<u8>> {
    let digits = hex_digits(s);
    if digits.len() % 2 == 0 && all_digits(digits, 16) {
        Some(
            Seq::new(
                digits.len() / 2,
                |i: int|
                    (digit_value(digits[2 * i], 16).unwrap() * 16 + digit_value(
                        digits[2 * i + 1],
                        16,
                    ).unwrap()) as u8,
            ),
        )
    } else {
        None
    }
}

/// `hex::decode` of `alloy_primitives`: two hexadecimal digits of either case for each byte,
/// behind a `0x` or `0X` that may be left out, and an error for any other text.
#[verifier::external_body]
fn decode_hex(s: &str) -> (r: Option<Vec<u8>>)
    ensures
        match r {
            Some(bytes) => hex_bytes(s@) == Some(bytes@),
            None => hex_bytes(s@) is None,
        },
{
    hex::decode(s).ok()
}

/// A hexadecimal digit in lower case.
pub open spec fn hex_digit(n: nat) -> char {
    if n < 10 {
        ('0' as nat + n) as char
    } else {
        ('a' as nat + n - 10) as char
    }
}

/// Bytes as text: `0x`, and two hexadecimal digits in lower case for each byte.
pub open spec fn hex_text(bytes: Seq<u8>) -> Seq<char> {
    "0x"@ + Seq::new(
        2 * bytes.len(),
        |i: int|
            hex_digit(
                if i % 2 == 0 {
                    bytes[i / 2] as nat / 16
                } else {
                    bytes[i / 2] as nat % 16
                },
            ),
    )
}

/// `hex::encode_prefixed` of `alloy_primitives`: `0x`, and two hexadecimal digits in lower
/// case for each byte.
#[verifier::external_body]
fn encode_hex(bytes: &Vec<u8>) -> (r: String)
    ensures
        r@ == hex_text(bytes@),
{
    hex::encode_prefixed(bytes)
}

/// A signed transaction, as far as a call takes something from it.
pub struct SignedTransaction {
    /// The address that signed it, where the signature is good.
    pub signer: Option<String>,
    /// The address that it is sent to; none for the creation of a contract.
    pub to: Option<String>,
    pub input: Vec<u8>,
    /// The value in hexadecimal digits.
    pub value: String,
}

/// A signed transaction by what it holds.
pub struct TransactionModel {
    pub signer: Option<Seq<char>>,
    pub to: Option<Seq<char>>,
    pub input: Seq<u8>,
    pub value: Seq<char>,
}

impl View for SignedTransaction {
    type V = TransactionModel;

    open spec fn view(&self) -> TransactionModel {
        TransactionModel {
            signer: self.signer.deep_view(),
            to: self.to.deep_view(),
            input: self.input@,
            value: self.value@,
        }
    }
}

/// What `TxEnvelope::decode` reads in bytes, where it reads a signed transaction at all.
pub uninterp spec fn signed_transaction(bytes: Seq<u8>) -> Option<TransactionModel>;

/// `TxEnvelope::decode` of `alloy_consensus`, and of the transaction that it reads what
/// `recover_signer`, `to`, `input` and `value` give: addresses as their `Display` writes them,
/// the value in hexadecimal digits. All of it is a function of the bytes alone. No bytes are no
/// transaction.
#[verifier::external_body]
fn decode_transaction(bytes: &Vec<u8>) -> (r: Option<SignedTransaction>)
    ensures
        match r {
            Some(tx) => signed_transaction(bytes@) == Some(tx@),
            None => signed_transaction(bytes@) is None,
        },
        bytes@.len() == 0 ==> r is None,
{
    let tx = TxEnvelope::decode(&mut bytes.as_slice()).ok()?;
    Some(SignedTransaction {
        signer: tx.recover_signer().ok().map(|a| a.to_string()),
        to: tx.to().map(|a| a.to_string()),
        input: tx.input().to_vec(),
        value: format!("{:x}", tx.value()),
    })
}

/// The parameters of `eth_call` that a transaction amounts to. There are none where its
/// signer is not known.
pub open spec fn call_of_transaction(tx: TransactionModel) -> Option<JsonModel> {
    match tx.signer {
        Some(from) => Some(
            JsonModel::empty().with("from"@, JsonModel::Text(from)).with(
                "to"@,
                match tx.to {
                    Some(to) => JsonModel::Text(to),
                    None => JsonModel::Null,
                },
            ).with("data"@, JsonModel::Text(hex_text(tx.input))).with(
                "value"@,
                JsonModel::Text("0x"@ + tx.value),
            ),
        ),
        None => None,
    }
}

/// Makes the parameters of `eth_call` for a transaction.
pub fn transaction_call(tx: SignedTransaction) -> (r: Option<serde_json::Value>)
    ensures
        match r {
            Some(call) => call_of_transaction(tx@) == Some(json_model(call)),
            None => call_of_transaction(tx@) is None,
        },
{
    match tx.signer {
        Some(from) => {
            let to = match tx.to {
                Some(to) => text_value(to),
                None => null(),
            };
            let data = encode_hex(&tx.input);
            let value = owned("0x").concat(tx.value.as_str());
            Some(
                Fields::new().with("from", text_value(from)).with("to", to).with(
                    "data",
                    text_value(data),
                ).with("value", text_value(value)).build(),
            )
        },
        None => None,
    }
}

/// The parameters of `eth_call` that a raw transaction amounts to; none where the text is no
/// signed transaction.
pub open spec fn call_of(raw: Seq<char>) -> Option<JsonModel> {
    match hex_bytes(without_leading(raw, "0x"@)) {
        Some(bytes) => match signed_transaction(bytes) {
            Some(tx) => call_of_transaction(tx),
            None => None,
        },
        None => None,
    }
}

/// Decodes a raw transaction into the parameters of `eth_call`.
pub fn decode_call(raw: &str) -> (r: Option<serde_json::Value>)
    ensures
        match r {
            Some(call) => call_of(raw@) == Some(json_model(call)),
            None => call_of(raw@) is None,
        },
        without_leading(raw@, "0x"@).len() == 0 ==> r is None,
{
    let digits = trim_hex_prefix(raw);
    match decode_hex(digits.as_str()) {
        Some(bytes) => match decode_transaction(&bytes) {
            Some(tx) => transaction_call(tx),
            None => None,
        },
        None => None,
    }
}

/// A raw transaction stands for the same call with `0x` in front and without, and a text that
/// is not made of pairs of hexadecimal digits stands for none.
pub proof fn calls_do_not_depend_on_the_prefix(raw: Seq<char>)
    ensures
        call_of("0x"@ + raw) == call_of(raw),
        hex_bytes(without_leading(raw, "0x"@)) is None ==> call_of(raw) is None,
{
    reveal_strlit("0x");
    let s = "0x"@ + raw;
    assert("0x"@ =~= s.subrange(0, 2));
    assert(s.skip(2) =~= raw);
}

/// Bytes written as text are read back as they were.
pub proof fn hex_reads_back(bytes: Seq<u8>)
    ensures
        hex_bytes(hex_text(bytes)) == Some(bytes),
{
    reveal_strlit("0x");
    let s = hex_text(bytes);
    let digits = hex_digits(s);
    assert(s[0] == '0' && s[1] == 'x');
    assert(digits.len() == 2 * bytes.len());
    assert forall|i: int| 0 <= i < digits.len() implies (#[trigger] digit_value(digits[i], 16))
        == Some(
        if i % 2 == 0 {
            bytes[i / 2] as nat / 16
        } else {
            bytes[i / 2] as nat % 16
        },
    ) by {
        assert(digits[i] == s[i + 2]);
    }
    assert forall|i: int| 0 <= i < bytes.len() implies (digit_value(digits[2 * i], 16).unwrap() * 16
        + digit_value(digits[2 * i + 1], 16).unwrap()) as u8 == #[trigger] bytes[i] by {
        assert(digit_value(digits[2 * i], 16) == Some(bytes[i] as nat / 16));
        assert(digit_value(digits[2 * i + 1], 16) == Some(bytes[i] as nat % 16));
    }
    assert(hex_bytes(s).unwrap() =~= bytes);
}

} // verus!
