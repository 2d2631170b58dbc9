use moksha_mint::error::MintError;
use moksha_mint::mint::Mint;
use moksha_mint::quote::QuoteStatus;
use moksha_mint::signer::BlindedMessage;

fn test_mint() -> Mint {
    Mint::new(&b"master-secret-of-the-quote-tests".to_vec(), 3600).expect("keyset derivation")
}

fn one_output(amount: u64, tag: &str) -> Vec<BlindedMessage> {
    let b_point = moksha_mint::crypto::hash_to_curve(&tag.as_bytes().to_vec()).unwrap();
    vec![BlindedMessage { amount, b_point }]
}

#[test]
fn a_quote_mints_exactly_once_after_payment() {
    let mut mint = test_mint();
    let hash = b"quote-1024".to_vec();
    mint.create_mint_quote(1024, "lnbc-quote-1024".to_string(), hash.clone(), 100).unwrap();

    // Before payment confirmation minting is refused.
    let outputs = one_output(1024, "mint-output");
    assert_eq!(
        mint.mint_tokens(&hash, &outputs, 110).unwrap_err(),
        MintError::InvoiceNotPaidYet
    );

    // The gateway confirms payment; exactly one mint succeeds.
    mint.mark_paid(&hash, 120).unwrap();
    let promises = mint.mint_tokens(&hash, &outputs, 130).expect("first mint");
    assert_eq!(promises.len(), 1);
    assert_eq!(promises[0].amount, 1024);
    assert_eq!(promises[0].keyset_id, mint.list_keysets()[0]);

    // Any further attempt against the same quote is refused.
    assert_eq!(
        mint.mint_tokens(&hash, &outputs, 140).unwrap_err(),
        MintError::AlreadyConsumed
    );
}

#[test]
fn a_failed_signing_leaves_the_quote_mintable() {
    let mut mint = test_mint();
    let hash = b"quote-bad-output".to_vec();
    mint.create_mint_quote(1024, "lnbc-pr".to_string(), hash.clone(), 0).unwrap();
    mint.mark_paid(&hash, 1).unwrap();

    // An output outside the denomination set fails and consumes nothing.
    assert_eq!(
        mint.mint_tokens(&hash, &one_output(1000, "bad"), 2).unwrap_err(),
        MintError::InvalidAmount
    );
    assert!(mint.mint_tokens(&hash, &one_output(1024, "good"), 3).is_ok());
}

#[test]
fn unknown_and_duplicate_quotes_are_refused() {
    let mut mint = test_mint();
    assert_eq!(
        mint.mint_tokens(&b"missing".to_vec(), &vec![], 0).unwrap_err(),
        MintError::UnknownQuote
    );
    assert_eq!(
        mint.mark_paid(&b"missing".to_vec(), 0).unwrap_err(),
        MintError::UnknownQuote
    );
    let hash = b"quote-dup".to_vec();
    mint.create_mint_quote(4, "pr-a".to_string(), hash.clone(), 0).unwrap();
    assert_eq!(
        mint.create_mint_quote(8, "pr-b".to_string(), hash, 0).unwrap_err(),
        MintError::PersistenceError
    );
}

#[test]
fn pending_quotes_expire_and_stay_unmintable() {
    let mut mint = test_mint();
    let hash = b"quote-expiring".to_vec();
    // Created at 100 with a 3600 time-to-live: expires at 3700.
    mint.create_mint_quote(64, "pr".to_string(), hash.clone(), 100).unwrap();

    assert_eq!(mint.mark_paid(&hash, 3700).unwrap_err(), MintError::QuoteExpired);
    assert_eq!(
        mint.mint_tokens(&hash, &one_output(64, "late"), 3700).unwrap_err(),
        MintError::QuoteExpired
    );

    mint.quotes.sweep_expired(3700);
    assert_eq!(mint.quotes.status(&hash).unwrap().status, QuoteStatus::Expired);
    // A confirmation arriving after the sweep still reports expiry.
    assert_eq!(mint.mark_paid(&hash, 3800).unwrap_err(), MintError::QuoteExpired);
}

#[test]
fn marking_paid_is_idempotent_and_abandoned_polling_changes_nothing() {
    let mut mint = test_mint();
    let hash = b"quote-idem".to_vec();
    mint.create_mint_quote(16, "pr".to_string(), hash.clone(), 0).unwrap();

    // A pending quote stays pending while a poller merely looks at it.
    assert_eq!(mint.quotes.status(&hash).unwrap().status, QuoteStatus::Pending);
    assert_eq!(mint.quotes.status(&hash).unwrap().status, QuoteStatus::Pending);

    mint.mark_paid(&hash, 1).unwrap();
    mint.mark_paid(&hash, 2).unwrap();
    assert_eq!(mint.quotes.status(&hash).unwrap().status, QuoteStatus::Paid);
    assert!(mint.mint_tokens(&hash, &vec![], 3).is_ok());
    // Marking a consumed quote paid is a no-op, not an error.
    mint.mark_paid(&hash, 4).unwrap();
    assert_eq!(mint.quotes.status(&hash).unwrap().status, QuoteStatus::Consumed);
}

#[test]
fn the_expiry_sweep_touches_only_overdue_pending_quotes() {
    let mut mint = test_mint();
    mint.create_mint_quote(2, "pr-a".to_string(), b"a".to_vec(), 0).unwrap();
    mint.create_mint_quote(4, "pr-b".to_string(), b"b".to_vec(), 1000).unwrap();
    mint.mark_paid(&b"a".to_vec(), 10).unwrap();

    mint.quotes.sweep_expired(3650);
    // "a" is paid: the sweep leaves it alone. "b" expires only at 4600.
    assert_eq!(mint.quotes.status(&b"a".to_vec()).unwrap().status, QuoteStatus::Paid);
    assert_eq!(mint.quotes.status(&b"b".to_vec()).unwrap().status, QuoteStatus::Pending);

    mint.quotes.sweep_expired(4600);
    assert_eq!(mint.quotes.status(&b"b".to_vec()).unwrap().status, QuoteStatus::Expired);
}
