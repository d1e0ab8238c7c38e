use evmcrispr_api::transaction::{decode_call, transaction_call, SignedTransaction};

fn json(text: &str) -> serde_json::Value {
    serde_json::from_str(text).unwrap()
}

#[test]
fn transaction_legacy() {
    let raw = "0xf86c098504a817c800825208943535353535353535353535353535353535353535880de0b6b3a76400008025a028ef61340bd939bc2195fe537567866003e1a15d3c71ff63e1590620aa636276a067cbe9d8997f761aecb703304b3800ccf555c9f3dc64214b297fb1966a3b6d83";
    assert_eq!(
        decode_call(raw),
        Some(json(
            "{\"from\":\"0x9d8A62f656a8d1615C1294fd71e9CFb3E4855A4F\",
              \"to\":\"0x3535353535353535353535353535353535353535\",
              \"data\":\"0x\",\"value\":\"0xde0b6b3a7640000\"}"
        ))
    );
}

#[test]
fn transaction_with_fee_market() {
    let raw = "02f86f0102843b9aca0085029e7822d68298f094d9e1459a7a482635700cbc20bbaf52d495ab9c9680841b55ba3ac080a0c199674fcb29f353693dd779c017823b954b3c69dffa3cd6b2a6ff7888798039a028ca912de909e7e6cdef9cdcaf24c54dd8c1032946dfa1d85c206b32a9064fe8";
    let call = json(
        "{\"from\":\"0x001e2b7dE757bA469a57bF6b23d982458a07eFcE\",
          \"to\":\"0xD9e1459A7A482635700cBc20BBAF52D495Ab9C96\",
          \"data\":\"0x1b55ba3a\",\"value\":\"0x0\"}",
    );
    assert_eq!(decode_call(raw), Some(call.clone()));
    assert_eq!(decode_call(format!("0x0x{}", raw.to_uppercase()).as_str()), Some(call));
}

#[test]
fn transaction_with_blobs() {
    let raw = "0x03f9011d83aa36a7820fa28477359400852e90edd0008252089411e9ca82a3a762b4b5bd264d4173a242e7a770648080c08504a817c800f8a5a0012ec3d6f66766bedb002a190126b3549fce0047de0d4c25cffce0dc1c57921aa00152d8e24762ff22b1cfd9f8c0683786a7ca63ba49973818b3d1e9512cd2cec4a0013b98c6c83e066d5b14af2b85199e3d4fc7d1e778dd53130d180f5077e2d1c7a001148b495d6e859114e670ca54fb6e2657f0cbae5b08063605093a4b3dc9f8f1a0011ac212f13c5dff2b2c6b600a79635103d6f580a4221079951181b25c7e654901a0c8de4cced43169f9aa3d36506363b2d2c44f6c49fc1fd91ea114c86f3757077ea01e11fdd0d1934eda0492606ee0bb80a7bf8f35cc5f86ec60fe5031ba48bfd544";
    let call = decode_call(raw).unwrap();
    assert_eq!(call["to"].as_str(), Some("0x11E9CA82A3a762b4B5bd264d4173a242e7a77064"));
}

#[test]
fn transaction_calls_do_not_depend_on_the_prefix() {
    for raw in ["", "c0", "zz", "f86c098504a817c800825208943535353535353535353535353535353535353535880de0b6b3a76400008025a028ef61340bd939bc2195fe537567866003e1a15d3c71ff63e1590620aa636276a067cbe9d8997f761aecb703304b3800ccf555c9f3dc64214b297fb1966a3b6d83"] {
        assert_eq!(decode_call(format!("0x{}", raw).as_str()), decode_call(raw));
    }
}

#[test]
fn transaction_that_is_none() {
    assert_eq!(decode_call(""), None);
    assert_eq!(decode_call("0x"), None);
    assert_eq!(decode_call("0x123"), None);
    assert_eq!(decode_call("0xzz"), None);
    assert_eq!(decode_call("0xc0"), None);
    assert_eq!(decode_call("hello"), None);
}

#[test]
fn transaction_that_creates_a_contract() {
    let tx = SignedTransaction {
        signer: Some("0xaa".to_string()),
        to: None,
        input: vec![0x00, 0x0f, 0xa0, 0xff],
        value: "1f".to_string(),
    };
    assert_eq!(
        transaction_call(tx),
        Some(json("{\"from\":\"0xaa\",\"to\":null,\"data\":\"0x000fa0ff\",\"value\":\"0x1f\"}"))
    );
}

#[test]
fn transaction_without_signer() {
    let tx = SignedTransaction {
        signer: None,
        to: Some("0xbb".to_string()),
        input: Vec::new(),
        value: "0".to_string(),
    };
    assert_eq!(transaction_call(tx), None);
}

#[test]
fn transaction_hex_reads_back() {
    let tx = SignedTransaction {
        signer: Some("0xaa".to_string()),
        to: None,
        input: (0..=255).collect(),
        value: "0".to_string(),
    };
    let call = transaction_call(tx).unwrap();
    let data = call["data"].as_str().unwrap();
    let bytes = alloy_primitives::hex::decode(data).unwrap();
    assert_eq!(bytes, (0..=255).collect::<Vec<u8>>());
}
