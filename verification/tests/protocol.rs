use moksha_mint::bridge::{
    poll_start, poll_step, wallet_backend, wire_generate_qrcode, wire_get_balance, wire_import_token,
    wire_init_db, wire_pay_invoice, PollDecision, PollEvent, WalletBackend, WalletCommand,
};
use moksha_mint::error::MintError;
use moksha_mint::invoice::{decode_invoice, to_flutter_payment_request, PaymentRequest};
use moksha_mint::mint::Mint;
use moksha_mint::signer::{sign_blinded, BlindedMessage};
use moksha_mint::validator::{verify_proof, Proof};
use secp256k1::{PublicKey, Scalar, Secp256k1, SecretKey};

const INVOICE_250K_SAT: &str = "lnbc2500u1pvjluezsp5zyg3zyg3zyg3zyg3zyg3zyg3zyg3zyg3zyg3zyg3zyg3zyg3zygspp5qqqsyqcyq5rqwzqfqqqsyqcyq5rqwzqfqqqsyqcyq5rqwzqfqypqdq5xysxxatsyp3k7enxv4jsxqzpu9qrsgquk0rl77nj30yxdy8j9vdx85fkpmdla2087ne0xh8nhedh8w27kyke0lp53ut353s06fv3qfegext0eh0ymjpf39tuven09sam30g4vgpfna3rh";

fn test_mint() -> Mint {
    Mint::new(&b"master-secret-of-the-protocol-tests".to_vec(), 3600).expect("keyset derivation")
}

/// The full blind-signature round trip a wallet performs, with a real
/// blinding factor: blind the secret's curve point, have the mint sign
/// it, unblind the promise, and present the result as a proof.
#[test]
fn a_blindly_signed_token_unblinds_into_a_verifying_proof() {
    let secp = Secp256k1::new();
    let mint = test_mint();
    let amount = 8u64;
    let keyset_id = mint.list_keysets().remove(0);

    // The wallet's secret and its curve point Y.
    let secret = b"wallet-chosen-secret".to_vec();
    let y_bytes = moksha_mint::crypto::hash_to_curve(&secret).expect("curve point");
    let y = PublicKey::from_slice(&y_bytes).expect("valid point");

    // Blind: B_ = Y + r*G for a wallet-chosen factor r.
    let r = SecretKey::from_byte_array([7u8; 32]).expect("valid scalar");
    let r_pub = PublicKey::from_secret_key(&secp, &r);
    let blinded = y.combine(&r_pub).expect("blinding");

    // The mint signs the blinded point: C_ = k * B_.
    let msg = BlindedMessage { amount, b_point: blinded.serialize().to_vec() };
    let promise = sign_blinded(&mint.keysets, &keyset_id, &msg).expect("signing");
    assert_eq!(promise.amount, amount);
    assert_eq!(promise.keyset_id, keyset_id);

    // Unblind: C = C_ - r*K, with K the denomination's public key.
    let k_pub_bytes = &mint.list_keys()[3].1;
    assert_eq!(mint.list_keys()[3].0, amount);
    let k_pub = PublicKey::from_slice(k_pub_bytes).expect("mint key");
    let r_scalar = Scalar::from_be_bytes([7u8; 32]).expect("scalar");
    let shared = k_pub.mul_tweak(&secp, &r_scalar).expect("r*K");
    let c_blinded = PublicKey::from_slice(&promise.c_point).expect("promise point");
    let unblinded = c_blinded.combine(&shared.negate(&secp)).expect("unblinding");

    // The unblinded signature verifies as a proof — and only for its
    // own secret and amount.
    let proof = Proof {
        amount,
        secret: secret.clone(),
        c_point: unblinded.serialize().to_vec(),
        keyset_id: keyset_id.clone(),
    };
    assert!(verify_proof(&mint.keysets, &proof).is_ok());

    let still_blinded = Proof {
        amount,
        secret,
        c_point: promise.c_point.clone(),
        keyset_id,
    };
    assert_eq!(
        verify_proof(&mint.keysets, &still_blinded).unwrap_err(),
        MintError::InvalidSignature
    );
}

/// Proofs signed under an old keyset keep verifying after a new keyset
/// becomes the active one, and new promises carry the new keyset's id.
#[test]
fn rotation_retains_old_keysets_for_verification() {
    let mut mint = test_mint();
    let old_id = mint.list_keysets().remove(0);
    let point = moksha_mint::crypto::hash_to_curve(&b"rotation-secret".to_vec()).unwrap();
    let msg = BlindedMessage { amount: 4, b_point: point };
    let promise = sign_blinded(&mint.keysets, &old_id, &msg).unwrap();
    let proof = Proof {
        amount: 4,
        secret: b"rotation-secret".to_vec(),
        c_point: promise.c_point,
        keyset_id: old_id.clone(),
    };
    assert!(verify_proof(&mint.keysets, &proof).is_ok());

    mint.keysets.rotate(&b"second-epoch-master".to_vec()).expect("rotation");
    let ids = mint.list_keysets();
    assert_eq!(ids.len(), 2);
    assert_eq!(ids[0], old_id);
    assert_ne!(ids[1], old_id);

    // The old proof still verifies; fresh promises name the new epoch.
    assert!(verify_proof(&mint.keysets, &proof).is_ok());
    let point = moksha_mint::crypto::hash_to_curve(&b"fresh".to_vec()).unwrap();
    let fresh = sign_blinded(&mint.keysets, &ids[1], &BlindedMessage { amount: 4, b_point: point })
        .unwrap();
    assert_eq!(fresh.keyset_id, ids[1]);
}

#[test]
fn decoding_reads_amount_and_expiry_from_the_payment_request() {
    let decoded = decode_invoice(INVOICE_250K_SAT.to_string()).expect("valid invoice");
    assert_eq!(decoded.amount_sats, 250_000);
    assert_eq!(decoded.expiry_time, 60);
    assert_eq!(decoded.pr, INVOICE_250K_SAT);

    assert_eq!(
        decode_invoice("lnbc-not-an-invoice".to_string()).unwrap_err(),
        MintError::InvalidInvoice
    );
}

#[test]
fn payment_requests_cross_the_bridge_unchanged() {
    let request = PaymentRequest { pr: "lnbc-pr".to_string(), hash: "abc123".to_string() };
    let flutter = to_flutter_payment_request(request);
    assert_eq!(flutter.pr, "lnbc-pr");
    assert_eq!(flutter.hash, "abc123");
}

#[test]
fn wire_calls_build_the_commands_they_name() {
    assert_eq!(wire_generate_qrcode(21), WalletCommand::GenerateQrCode { amount: 21 });
    assert_eq!(wire_init_db(), WalletCommand::InitDb);
    assert_eq!(wire_get_balance(), WalletCommand::GetBalance);
    assert_eq!(
        wire_pay_invoice("lnbc1".to_string()),
        WalletCommand::PayInvoice { invoice: "lnbc1".to_string() }
    );
}

#[test]
fn token_imports_are_routed_by_prefix() {
    assert_eq!(
        wire_import_token("cashuAeyJ0b2tlbiI6W119".to_string()),
        WalletCommand::ImportCashuToken { token: "cashuAeyJ0b2tlbiI6W119".to_string() }
    );
    assert_eq!(
        wire_import_token("fed11qgqz".to_string()),
        WalletCommand::ImportFedimintToken { token: "fed11qgqz".to_string() }
    );
    assert_eq!(
        wire_import_token("cash".to_string()),
        WalletCommand::ImportFedimintToken { token: "cash".to_string() }
    );
}

#[test]
fn backend_choice_follows_the_target() {
    assert_eq!(wallet_backend(true, "ignored.db".to_string()), WalletBackend::InMemory);
    assert_eq!(
        wallet_backend(false, "wallet.db".to_string()),
        WalletBackend::Sqlite { db_path: "wallet.db".to_string() }
    );
}

#[test]
fn polling_ends_in_an_explicit_outcome() {
    // Success delivers the minted total.
    let mut poll = poll_start(1024);
    assert_eq!(
        poll_step(&mut poll, PollEvent::Minted { total: 1024 }),
        PollDecision::Deliver { total: 1024 }
    );

    // A never-paid quote is retried until the attempts run out, then the
    // wait reports the unpaid outcome instead of going silent.
    let mut poll = poll_start(1024);
    for _ in 0..29 {
        assert_eq!(
            poll_step(&mut poll, PollEvent::NotPaidYet),
            PollDecision::Retry { millis: 1000 }
        );
    }
    assert_eq!(poll_step(&mut poll, PollEvent::NotPaidYet), PollDecision::GaveUpUnpaid);

    // A hard failure surfaces at once.
    let mut poll = poll_start(1024);
    assert_eq!(poll_step(&mut poll, PollEvent::Failed), PollDecision::GaveUpFailed);
}
