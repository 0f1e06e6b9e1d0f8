use solana_signer::Signer;

use mootrade::utils::{sol_sign, u128_to_dec_str};
use mootrade::wire::{
    abi_string_payload, assemble_signed_tx, b64_decode, b64_encode, build_transfer_message,
    parse_hex_bytes, parse_hex_u128, sign_swap_payload, swap_message_bytes, utf8_lossy,
};

#[test]
fn base64_encodes_the_reference_groups() {
    assert_eq!(b64_encode(&vec![77, 97, 110]), "TWFu");
    assert_eq!(b64_encode(&vec![77, 97]), "TWE=");
    assert_eq!(b64_encode(&vec![77]), "TQ==");
    assert_eq!(b64_encode(&Vec::new()), "");
    assert_eq!(b64_encode(&vec![255, 255, 255, 255]), "/////w==");
}

#[test]
fn base64_round_trips() {
    for bytes in [vec![], vec![0], vec![1, 2], vec![9, 8, 7], (0u8..=255).collect::<Vec<u8>>()] {
        let text = b64_encode(&bytes);
        assert_eq!(b64_decode(&text).expect("decode"), bytes);
    }
}

#[test]
fn base64_rejects_malformed_text() {
    for bad in ["a", "abc", "ab!d", "=abc", "a=bc", "TQ=x"] {
        let err = b64_decode(bad).unwrap_err();
        assert_eq!(err.err_msg, "invalid base64");
    }
}

#[test]
fn hex_quantity_parses_and_refuses() {
    assert_eq!(parse_hex_u128("ff").unwrap(), 255);
    assert_eq!(parse_hex_u128("0").unwrap(), 0);
    assert_eq!(parse_hex_u128("DeadBeef").unwrap(), 0xdead_beef);
    assert_eq!(
        parse_hex_u128("ffffffffffffffffffffffffffffffff").unwrap(),
        u128::MAX
    );
    for bad in ["", "xyz", "1g", "1ffffffffffffffffffffffffffffffff"] {
        assert_eq!(parse_hex_u128(bad).unwrap_err().err_msg, "invalid hex quantity");
    }
}

#[test]
fn hex_bytes_parse_in_pairs() {
    assert_eq!(parse_hex_bytes("0a0bff").unwrap(), vec![10, 11, 255]);
    assert_eq!(parse_hex_bytes("").unwrap(), Vec::<u8>::new());
    for bad in ["a", "0a0", "zz"] {
        assert_eq!(parse_hex_bytes(bad).unwrap_err().err_msg, "invalid hex data");
    }
}

#[test]
fn abi_payload_extraction_follows_the_length_word() {
    let mut ret = vec![0u8; 63];
    ret.push(3); // length word announces three bytes
    ret.extend_from_slice(b"abcXX");
    assert_eq!(abi_string_payload(&ret).unwrap(), b"abc".to_vec());
    assert_eq!(utf8_lossy(&abi_string_payload(&ret).unwrap()), "abc");

    let err = abi_string_payload(&vec![0u8; 10]).unwrap_err();
    assert_eq!(err.err_msg, "malformed string return");
    let mut too_long = vec![0u8; 63];
    too_long.push(9); // announces more bytes than are present
    too_long.extend_from_slice(b"abc");
    assert!(abi_string_payload(&too_long).is_err());
}

#[test]
fn transfer_message_has_the_exact_wire_bytes() {
    let from = vec![1u8; 32];
    let tos = vec![vec![2u8; 32]];
    let blockhash = vec![3u8; 32];
    let msg = build_transfer_message(&from, &tos, &blockhash, 7);
    let mut expected: Vec<u8> = vec![1, 0, 1, 3];
    expected.extend_from_slice(&[1u8; 32]);
    expected.extend_from_slice(&[2u8; 32]);
    expected.extend_from_slice(&[0u8; 32]);
    expected.extend_from_slice(&[3u8; 32]);
    expected.push(1); // one instruction
    expected.extend_from_slice(&[2, 2, 0, 1, 12]); // program, accounts, data length
    expected.extend_from_slice(&[2, 0, 0, 0]); // transfer discriminant
    expected.extend_from_slice(&[7, 0, 0, 0, 0, 0, 0, 0]); // lamports
    assert_eq!(msg, expected);
}

#[test]
fn transfer_message_numbers_recipients_in_order() {
    let from = vec![1u8; 32];
    let tos = vec![vec![2u8; 32], vec![4u8; 32]];
    let blockhash = vec![3u8; 32];
    let msg = build_transfer_message(&from, &tos, &blockhash, 256);
    assert_eq!(msg[3], 4); // four account keys
    let ix_start = 4 + 32 * 4 + 32 + 1; // header, accounts, blockhash, count
    assert_eq!(msg[ix_start - 1], 2); // two instructions
    // First instruction pays account 1, the second account 2; both name
    // the system program at index 3.
    assert_eq!(&msg[ix_start..ix_start + 5], &[3, 2, 0, 1, 12]);
    let second = ix_start + 5 + 12;
    assert_eq!(&msg[second..second + 5], &[3, 2, 0, 2, 12]);
    // 256 lamports little-endian.
    assert_eq!(&msg[ix_start + 9..ix_start + 17], &[0, 1, 0, 0, 0, 0, 0, 0]);
}

#[test]
fn swap_payload_signing_splices_only_the_signature() {
    let mut tx = vec![1u8];
    tx.extend_from_slice(&[0u8; 64]);
    tx.extend_from_slice(&[9, 8, 7]);
    let sig = vec![5u8; 64];
    let signed = sign_swap_payload(tx.clone(), &sig).expect("splice");
    assert_eq!(signed[0], 1);
    assert_eq!(&signed[1..65], &[5u8; 64][..]);
    assert_eq!(&signed[65..], &[9, 8, 7]);

    let mut wrong_count = tx.clone();
    wrong_count[0] = 2;
    let err = sign_swap_payload(wrong_count, &sig).unwrap_err();
    assert_eq!(err.err_msg, "unexpected signature count in swap payload");
    let err = sign_swap_payload(vec![1u8, 0, 0], &sig).unwrap_err();
    assert_eq!(err.err_msg, "swap payload too short");
}

#[test]
fn assembled_transaction_prefixes_count_and_signature() {
    let sig = vec![6u8; 64];
    let msg = vec![1, 2, 3];
    let tx = assemble_signed_tx(&sig, &msg);
    assert_eq!(tx[0], 1);
    assert_eq!(&tx[1..65], &[6u8; 64][..]);
    assert_eq!(&tx[65..], &[1, 2, 3]);
}

#[test]
fn signing_matches_the_keypair_and_is_deterministic() {
    let kp = solana_keypair::Keypair::new();
    let key = kp.to_bytes().to_vec();
    let msg = b"a message to land on chain".to_vec();
    let sig = sol_sign(&key, &msg).expect("sign");
    assert_eq!(sig.len(), 64);
    assert_eq!(sig, kp.sign_message(&msg).as_ref().to_vec());
    assert_eq!(sig, sol_sign(&key, &msg).expect("sign again"));
    let other = sol_sign(&key, &b"another message".to_vec()).expect("sign");
    assert_ne!(sig, other);
    assert!(sol_sign(&vec![1u8; 3], &msg).is_err());
}

#[test]
fn decimal_printing_is_exact() {
    assert_eq!(u128_to_dec_str(0), "0");
    assert_eq!(u128_to_dec_str(9), "9");
    assert_eq!(u128_to_dec_str(10), "10");
    assert_eq!(u128_to_dec_str(1_234_567_890), "1234567890");
    assert_eq!(u128_to_dec_str(u128::MAX), "340282366920938463463374607431768211455");
}

#[test]
fn swap_message_extraction_takes_everything_after_the_signature() {
    let mut tx = vec![1u8];
    tx.extend_from_slice(&[0u8; 64]);
    tx.extend_from_slice(&[4, 5, 6]);
    assert_eq!(swap_message_bytes(&tx).unwrap(), vec![4, 5, 6]);
    assert!(swap_message_bytes(&vec![2u8; 70]).is_err());
    assert!(swap_message_bytes(&vec![1u8, 0]).is_err());
}
