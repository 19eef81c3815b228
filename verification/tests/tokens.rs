use punch::time::Timestamp;
use punch::token::{Token, TokenType, CODE_HIGH, CODE_LOW};
use punch::token_store::{
    check_and_consume, find_position, lookup_for_listen, revoke_token, store_token, verify_pno_token,
    ConsumeOutcome, StoredToken, StoredTokenType, TokenError,
};

fn at(secs: i64) -> Timestamp {
    Timestamp { secs, nanos: 0 }
}

fn stored(code: &str, token_type: StoredTokenType) -> StoredToken {
    StoredToken { code: code.to_string(), token_type, created_at: at(100), last_used: None }
}

#[test]
fn generated_codes_are_four_digits_in_range() {
    for _ in 0..200 {
        let t = Token::generate(None, false);
        assert_eq!(t.code.len(), 4);
        let n: u32 = t.code.parse().unwrap();
        assert!(n >= CODE_LOW && n < CODE_HIGH);
        assert_eq!(t.token_type, TokenType::TNo);
    }
}

#[test]
fn requested_kind_follows_flags() {
    assert_eq!(Token::generate(Some(3), false).token_type, TokenType::QNo { remaining: 3 });
    assert_eq!(Token::generate(Some(3), true).token_type, TokenType::PNo);
    assert_eq!(Token::generate(None, true).token_type, TokenType::PNo);
}

#[test]
fn code_numbers_are_zero_padded() {
    assert_eq!(Token::with_code_number(7, None, false).code, "0007");
    assert_eq!(Token::with_code_number(42, None, false).code, "0042");
    assert_eq!(Token::with_code_number(999, None, false).code, "0999");
    assert_eq!(Token::with_code_number(4829, None, false).code, "4829");
    assert_eq!(Token::with_code_number(12345, None, false).code, "12345");
}

#[test]
fn labels_and_display_text() {
    let t = Token::with_code_number(1234, Some(5), false);
    assert_eq!(t.display_label(), "Q-No");
    assert_eq!(t.token_type.display_text(), "Q-No (5x remaining)");
    assert_eq!(Token::with_code_number(1234, None, false).display_label(), "T-No");
    assert_eq!(TokenType::TNo.display_text(), "T-No");
    assert_eq!(Token::with_code_number(1234, None, true).display_label(), "P-No");
    assert_eq!(TokenType::PNo.display_text(), "P-No");
}

#[test]
fn can_connect_needs_remaining_uses() {
    assert!(Token::with_code_number(1111, None, false).can_connect());
    assert!(Token::with_code_number(1111, Some(1), false).can_connect());
    assert!(!Token::with_code_number(1111, Some(0), false).can_connect());
    assert!(Token::with_code_number(1111, None, true).can_connect());
}

#[test]
fn stored_status_texts() {
    assert_eq!(stored("1", StoredTokenType::TNo).status(), "Temporary (single use)");
    assert_eq!(stored("1", StoredTokenType::QNo { remaining: 3 }).status(), "Quantised (3 uses remaining)");
    assert_eq!(stored("1", StoredTokenType::PNo { verified: true }).status(), "Permanent (verified)");
    assert_eq!(stored("1", StoredTokenType::PNo { verified: false }).status(), "Permanent (not verified)");
    assert_eq!(StoredTokenType::QNo { remaining: 1 }.type_label(), "Q-No");
    assert!(!stored("1", StoredTokenType::QNo { remaining: 0 }).is_valid());
    assert!(!stored("1", StoredTokenType::PNo { verified: false }).is_valid());
    assert!(stored("1", StoredTokenType::TNo).is_valid());
}

#[test]
fn temporary_codes_are_not_stored() {
    let mut store = Vec::new();
    store_token(&mut store, &Token::with_code_number(1234, None, false), at(5));
    assert!(store.is_empty());
    store_token(&mut store, &Token::with_code_number(2345, Some(2), false), at(5));
    store_token(&mut store, &Token::with_code_number(3456, None, true), at(6));
    assert_eq!(store.len(), 2);
    assert_eq!(store[0].token_type, StoredTokenType::QNo { remaining: 2 });
    assert_eq!(store[1].token_type, StoredTokenType::PNo { verified: false });
    assert_eq!(store[1].created_at, at(6));
    assert_eq!(store[1].last_used, None);
}

#[test]
fn quantised_code_allows_exactly_its_uses() {
    let mut store = Vec::new();
    store_token(&mut store, &Token::with_code_number(2345, Some(3), false), at(1));
    assert_eq!(check_and_consume(&mut store, "2345", at(10)), Ok(ConsumeOutcome::UsesLeft(2)));
    assert_eq!(store[0].last_used, Some(at(10)));
    assert_eq!(check_and_consume(&mut store, "2345", at(11)), Ok(ConsumeOutcome::UsesLeft(1)));
    assert_eq!(check_and_consume(&mut store, "2345", at(12)), Ok(ConsumeOutcome::LastUse));
    assert!(store.is_empty());
    // Gone from the store: no longer enforced.
    assert_eq!(check_and_consume(&mut store, "2345", at(13)), Ok(ConsumeOutcome::NotTracked));
}

#[test]
fn permanent_code_needs_verification() {
    let mut store = Vec::new();
    store_token(&mut store, &Token::with_code_number(3456, None, true), at(1));
    assert_eq!(check_and_consume(&mut store, "3456", at(2)), Err(TokenError::Expired));
    assert_eq!(store[0].token_type, StoredTokenType::PNo { verified: false });
    assert_eq!(verify_pno_token(&mut store, "3456"), Ok(()));
    assert_eq!(check_and_consume(&mut store, "3456", at(3)), Ok(ConsumeOutcome::PermanentUse));
    assert_eq!(check_and_consume(&mut store, "3456", at(4)), Ok(ConsumeOutcome::PermanentUse));
    assert_eq!(store.len(), 1);
    assert_eq!(store[0].last_used, Some(at(4)));
}

#[test]
fn stored_temporary_code_is_used_once() {
    let mut store = vec![stored("1111", StoredTokenType::TNo), stored("2222", StoredTokenType::TNo)];
    assert_eq!(check_and_consume(&mut store, "1111", at(1)), Ok(ConsumeOutcome::TemporaryUsed));
    assert_eq!(store.len(), 1);
    assert_eq!(store[0].code, "2222");
}

#[test]
fn refused_codes_leave_the_store_unchanged() {
    let mut store = vec![stored("1111", StoredTokenType::QNo { remaining: 0 })];
    assert_eq!(check_and_consume(&mut store, "1111", at(1)), Err(TokenError::Expired));
    assert_eq!(store.len(), 1);
    assert_eq!(store[0].token_type, StoredTokenType::QNo { remaining: 0 });
    assert_eq!(store[0].last_used, None);
}

#[test]
fn verification_errors() {
    let mut store = vec![stored("1111", StoredTokenType::TNo)];
    assert_eq!(verify_pno_token(&mut store, "1111"), Err(TokenError::NotPermanent));
    assert_eq!(verify_pno_token(&mut store, "9999"), Err(TokenError::NotFound));
    assert_eq!(store[0].token_type, StoredTokenType::TNo);
}

#[test]
fn revoking_removes_every_entry_with_the_code() {
    let mut store = vec![
        stored("1111", StoredTokenType::TNo),
        stored("2222", StoredTokenType::QNo { remaining: 4 }),
        stored("1111", StoredTokenType::PNo { verified: true }),
    ];
    assert_eq!(revoke_token(&mut store, "1111"), Ok(()));
    assert_eq!(store.len(), 1);
    assert_eq!(store[0].code, "2222");
    assert_eq!(revoke_token(&mut store, "1111"), Err(TokenError::NotFound));
    assert_eq!(store.len(), 1);
}

#[test]
fn listening_looks_up_usable_codes() {
    let store = vec![
        stored("1111", StoredTokenType::QNo { remaining: 0 }),
        stored("2222", StoredTokenType::QNo { remaining: 2 }),
    ];
    assert_eq!(lookup_for_listen(&store, "2222"), Ok(1));
    assert_eq!(lookup_for_listen(&store, "1111"), Err(TokenError::Expired));
    assert_eq!(lookup_for_listen(&store, "3333"), Err(TokenError::NotFound));
    assert_eq!(find_position(&store, "2222"), Some(1));
    assert_eq!(find_position(&store, "4444"), None);
}
