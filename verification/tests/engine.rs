use moksha_mint::amount::denomination_index;
use moksha_mint::error::MintError;
use moksha_mint::ledger::SpentProofLedger;
use moksha_mint::mint::Mint;
use moksha_mint::signer::{sign_blinded, BlindedMessage};
use moksha_mint::validator::{verify_proof, Proof};

// The BOLT11 test vector for 2500 micro-bitcoin (250 000 sat), expiry 60 s.
const INVOICE_250K_SAT: &str = "lnbc2500u1pvjluezsp5zyg3zyg3zyg3zyg3zyg3zyg3zyg3zyg3zyg3zyg3zyg3zyg3zygspp5qqqsyqcyq5rqwzqfqqqsyqcyq5rqwzqfqqqsyqcyq5rqwzqfqypqdq5xysxxatsyp3k7enxv4jsxqzpu9qrsgquk0rl77nj30yxdy8j9vdx85fkpmdla2087ne0xh8nhedh8w27kyke0lp53ut353s06fv3qfegext0eh0ymjpf39tuven09sam30g4vgpfna3rh";

fn test_mint() -> Mint {
    Mint::new(&b"master-secret-of-the-test-mint".to_vec(), 3600).expect("keyset derivation")
}

/// A proof as a wallet would hold it, produced with a zero blinding
/// factor: the blinded point is the secret's curve point itself, so the
/// promise needs no unblinding.
fn make_proof(mint: &Mint, amount: u64, secret: &[u8]) -> Proof {
    let point = moksha_mint::crypto::hash_to_curve(&secret.to_vec()).expect("curve point");
    let keyset_id = mint.list_keysets().remove(0);
    let msg = BlindedMessage { amount, b_point: point };
    let promise = sign_blinded(&mint.keysets, &keyset_id, &msg).expect("signable");
    Proof { amount, secret: secret.to_vec(), c_point: promise.c_point, keyset_id }
}

fn change_outputs_12144() -> Vec<BlindedMessage> {
    [8192u64, 2048, 1024, 512, 256, 64, 32, 16]
        .iter()
        .enumerate()
        .map(|(i, amount)| {
            let secret = format!("change-secret-{i}").into_bytes();
            let b_point = moksha_mint::crypto::hash_to_curve(&secret).expect("curve point");
            BlindedMessage { amount: *amount, b_point }
        })
        .collect()
}

#[test]
fn denominations_are_the_powers_of_two() {
    assert_eq!(denomination_index(1), Some(0));
    assert_eq!(denomination_index(2), Some(1));
    assert_eq!(denomination_index(1024), Some(10));
    assert_eq!(denomination_index(9_223_372_036_854_775_808), Some(63));
    assert_eq!(denomination_index(0), None);
    assert_eq!(denomination_index(3), None);
    assert_eq!(denomination_index(1023), None);
}

#[test]
fn listed_keys_cover_all_denominations() {
    let mint = test_mint();
    let keys = mint.list_keys();
    assert_eq!(keys.len(), 64);
    for (i, (amount, pk)) in keys.iter().enumerate() {
        assert_eq!(*amount, 1u64 << i);
        assert_eq!(pk.len(), 33);
    }
    assert_eq!(mint.list_keysets().len(), 1);
    assert_eq!(mint.list_keysets()[0].len(), 32);
}

#[test]
fn keyset_derivation_is_deterministic() {
    let a = Mint::new(&b"one master".to_vec(), 10).unwrap();
    let b = Mint::new(&b"one master".to_vec(), 10).unwrap();
    let c = Mint::new(&b"another master".to_vec(), 10).unwrap();
    assert_eq!(a.list_keysets()[0], b.list_keysets()[0]);
    assert_ne!(a.list_keysets()[0], c.list_keysets()[0]);
    assert_eq!(a.list_keys()[5].1, b.list_keys()[5].1);
}

#[test]
fn fees_are_zero() {
    assert_eq!(test_mint().check_fees(), 0);
}

#[test]
fn signed_proofs_verify_and_tampered_ones_do_not() {
    let mint = test_mint();
    let proof = make_proof(&mint, 8, b"signed-secret");
    assert!(verify_proof(&mint.keysets, &proof).is_ok());

    let mut wrong_secret = proof.clone();
    wrong_secret.secret = b"some-other-secret".to_vec();
    assert_eq!(
        verify_proof(&mint.keysets, &wrong_secret).unwrap_err(),
        MintError::InvalidSignature
    );

    let mut wrong_amount = proof.clone();
    wrong_amount.amount = 16;
    assert_eq!(
        verify_proof(&mint.keysets, &wrong_amount).unwrap_err(),
        MintError::InvalidSignature
    );

    let mut bad_amount = proof.clone();
    bad_amount.amount = 3;
    assert_eq!(verify_proof(&mint.keysets, &bad_amount).unwrap_err(), MintError::InvalidAmount);

    let mut bad_keyset = proof.clone();
    bad_keyset.keyset_id = vec![9u8; 32];
    assert_eq!(verify_proof(&mint.keysets, &bad_keyset).unwrap_err(), MintError::UnknownKeyset);
}

#[test]
fn signing_rejects_bad_amounts_and_keysets() {
    let mint = test_mint();
    let point = moksha_mint::crypto::hash_to_curve(&b"x".to_vec()).unwrap();
    let keyset_id = mint.list_keysets().remove(0);
    let msg = BlindedMessage { amount: 12, b_point: point.clone() };
    assert_eq!(
        sign_blinded(&mint.keysets, &keyset_id, &msg).unwrap_err(),
        MintError::InvalidAmount
    );
    let msg = BlindedMessage { amount: 16, b_point: point };
    assert_eq!(
        sign_blinded(&mint.keysets, &vec![0u8; 32], &msg).unwrap_err(),
        MintError::UnknownKeyset
    );
    let msg = BlindedMessage { amount: 16, b_point: vec![0u8; 33] };
    assert_eq!(
        sign_blinded(&mint.keysets, &keyset_id, &msg).unwrap_err(),
        MintError::CryptoError
    );
}

#[test]
fn melt_spends_inputs_and_issues_exact_change() {
    let mut mint = test_mint();
    let proof = make_proof(&mint, 262144, b"melt-input");
    let auth = mint
        .melt(&INVOICE_250K_SAT.to_string(), &vec![proof.clone()], &change_outputs_12144())
        .expect("melt");
    assert_eq!(auth.invoice_amount, 250_000);
    assert_eq!(auth.change.len(), 8);
    let amounts: Vec<u64> = auth.change.iter().map(|p| p.amount).collect();
    assert_eq!(amounts, vec![8192, 2048, 1024, 512, 256, 64, 32, 16]);
    let outcome = Mint::melt_finalize(auth, true, Some("preimage".to_string()));
    assert!(outcome.paid);
    assert_eq!(outcome.preimage.as_deref(), Some("preimage"));

    // The inputs are now spent: the same proof can never melt again.
    let err = mint
        .melt(&INVOICE_250K_SAT.to_string(), &vec![proof], &change_outputs_12144())
        .unwrap_err();
    assert_eq!(err, MintError::DoubleSpend);
}

#[test]
fn melt_rejects_underfunded_or_mismatched_requests() {
    let mut mint = test_mint();
    let small = make_proof(&mint, 1024, b"small-input");
    let err = mint.melt(&INVOICE_250K_SAT.to_string(), &vec![small], &vec![]).unwrap_err();
    assert_eq!(err, MintError::InsufficientAmount);

    let input = make_proof(&mint, 262144, b"mismatch-input");
    let err = mint
        .melt(&INVOICE_250K_SAT.to_string(), &vec![input.clone()], &vec![])
        .unwrap_err();
    assert_eq!(err, MintError::AmountMismatch);

    let err = mint.melt(&"no-invoice".to_string(), &vec![input.clone()], &vec![]).unwrap_err();
    assert_eq!(err, MintError::InvalidInvoice);

    // None of the failures spent the input: a proper melt still goes through.
    assert!(mint
        .melt(&INVOICE_250K_SAT.to_string(), &vec![input], &change_outputs_12144())
        .is_ok());
}

#[test]
fn split_preserves_value_and_cuts_at_the_requested_amount() {
    let mut mint = test_mint();
    let input = make_proof(&mint, 64, b"split-input");
    let outputs: Vec<BlindedMessage> = [32u64, 16, 16]
        .iter()
        .enumerate()
        .map(|(i, amount)| {
            let secret = format!("split-output-{i}").into_bytes();
            let b_point = moksha_mint::crypto::hash_to_curve(&secret).unwrap();
            BlindedMessage { amount: *amount, b_point }
        })
        .collect();
    let (fst, snd) = mint.split(40, &vec![input], &outputs).expect("split");
    let fst_amounts: Vec<u64> = fst.iter().map(|p| p.amount).collect();
    let snd_amounts: Vec<u64> = snd.iter().map(|p| p.amount).collect();
    assert_eq!(fst_amounts, vec![32, 16]);
    assert_eq!(snd_amounts, vec![16]);
    let active = mint.list_keysets().remove(0);
    assert!(fst.iter().chain(snd.iter()).all(|p| p.keyset_id == active));
}

#[test]
fn split_rejects_value_mismatch_without_spending() {
    let mut mint = test_mint();
    let input = make_proof(&mint, 64, b"mismatch-split-input");
    let short_output = vec![BlindedMessage {
        amount: 32,
        b_point: moksha_mint::crypto::hash_to_curve(&b"short".to_vec()).unwrap(),
    }];
    let err = mint.split(32, &vec![input.clone()], &short_output).unwrap_err();
    assert_eq!(err, MintError::AmountMismatch);

    // The input was not marked spent by the failed split.
    assert!(!mint.ledger.contains(&input.secret));
    let full_outputs = vec![
        BlindedMessage {
            amount: 32,
            b_point: moksha_mint::crypto::hash_to_curve(&b"full-a".to_vec()).unwrap(),
        },
        BlindedMessage {
            amount: 32,
            b_point: moksha_mint::crypto::hash_to_curve(&b"full-b".to_vec()).unwrap(),
        },
    ];
    assert!(mint.split(32, &vec![input], &full_outputs).is_ok());
}

#[test]
fn split_rejects_spent_inputs_and_leaves_ledger_unchanged() {
    let mut mint = test_mint();
    let spent = make_proof(&mint, 16, b"spent-already");
    let fresh = make_proof(&mint, 16, b"still-fresh");
    mint.ledger.try_spend(&spent.secret).unwrap();

    let outputs = vec![BlindedMessage {
        amount: 32,
        b_point: moksha_mint::crypto::hash_to_curve(&b"double".to_vec()).unwrap(),
    }];
    let err = mint.split(32, &vec![spent.clone(), fresh.clone()], &outputs).unwrap_err();
    assert_eq!(err, MintError::DoubleSpend);
    assert!(!mint.ledger.contains(&fresh.secret));
    assert!(mint.ledger.contains(&spent.secret));
}

#[test]
fn disjoint_batches_spend_but_overlapping_batches_race_to_one_winner() {
    let mut ledger = SpentProofLedger::new();
    let batch_a = vec![b"s1".to_vec(), b"s2".to_vec()];
    let batch_b = vec![b"s3".to_vec(), b"s4".to_vec()];
    let batch_c = vec![b"s2".to_vec(), b"s5".to_vec()];
    assert!(ledger.try_spend_batch(&batch_a).is_ok());
    assert!(ledger.try_spend_batch(&batch_b).is_ok());
    assert_eq!(ledger.try_spend_batch(&batch_c).unwrap_err(), MintError::DoubleSpend);
    assert!(!ledger.contains(&b"s5".to_vec()));

    let mut other = SpentProofLedger::new();
    assert!(other.try_spend_batch(&batch_c).is_ok());
    assert_eq!(other.try_spend_batch(&batch_a).unwrap_err(), MintError::DoubleSpend);
}

#[test]
fn batches_with_repeated_secrets_are_rejected_whole() {
    let mut ledger = SpentProofLedger::new();
    let twice = vec![b"dup".to_vec(), b"dup".to_vec()];
    assert_eq!(ledger.try_spend_batch(&twice).unwrap_err(), MintError::DoubleSpend);
    assert!(!ledger.contains(&b"dup".to_vec()));
}
