use simple_token::HelloContract;
use simple_token::SimpleToken;
use simple_token::TokenError;
use simple_token::TokenEvent;

#[test]
fn test() {
    let words = HelloContract::hello("Dev");
    assert_eq!(words, vec!["Hello", "Dev"]);
}

fn create_token(admin: u64) -> SimpleToken {
    let mut token = SimpleToken::new();
    token
        .initialize(admin, 7, "name".as_bytes().to_vec(), "symbol".as_bytes().to_vec())
        .unwrap();
    token
}

#[test]
fn test_simple_token() {
    let admin1: u64 = 1;
    let admin2: u64 = 2;
    let user1: u64 = 11;
    let user2: u64 = 12;
    let user3: u64 = 13;
    let mut token = create_token(admin1);

    token.mint(admin1, user1, 1000).unwrap();
    assert_eq!(
        token.events().last(),
        Some(&TokenEvent::Mint { admin: admin1, to: user1, amount: 1000 })
    );
    assert_eq!(token.balance(user1), 1000);

    token.mint(admin1, user3, 1000).unwrap();

    token.transfer(user1, user1, user2, 600).unwrap();
    assert_eq!(
        token.events().last(),
        Some(&TokenEvent::Transfer { from: user1, to: user2, amount: 600 })
    );
    assert_eq!(token.balance(user1), 400);
    assert_eq!(token.balance(user2), 600);

    token.transfer(user1, user1, user3, 300).unwrap();
    assert_eq!(token.balance(user1), 100);
    assert_eq!(token.balance(user3), 1300);

    token.set_admin(admin1, admin2).unwrap();
    assert_eq!(
        token.events().last(),
        Some(&TokenEvent::SetAdmin { admin: admin1, new_admin: admin2 })
    );

    token.set_authorized(admin2, user2, false).unwrap();
    assert_eq!(
        token.events().last(),
        Some(&TokenEvent::SetAuthorized { admin: admin2, id: user2, authorize: false })
    );
    assert_eq!(token.authorized(user2), false);

    token.set_authorized(admin2, user3, true).unwrap();
    assert_eq!(token.authorized(user3), true);

    token.clawback(admin2, user3, 100).unwrap();
    assert_eq!(
        token.events().last(),
        Some(&TokenEvent::Clawback { admin: admin2, from: user3, amount: 100 })
    );
    assert_eq!(token.balance(user3), 1200);
}

#[test]
fn default_state_is_zero_and_authorized() {
    let token = SimpleToken::new();
    assert_eq!(token.balance(42), 0);
    assert!(token.authorized(42));
    assert!(!token.has_administrator());
    assert_eq!(token.read_administrator(), Err(TokenError::NotInitialized));
    assert!(token.events().is_empty());
}

#[test]
fn defaults_survive_unrelated_operations() {
    let mut token = create_token(1);
    token.mint(1, 11, 500).unwrap();
    token.set_authorized(1, 12, false).unwrap();
    assert_eq!(token.balance(99), 0);
    assert!(token.authorized(99));
}

#[test]
fn reads_before_initialization_fail() {
    let token = SimpleToken::new();
    assert_eq!(token.decimals(), Err(TokenError::NotInitialized));
    assert_eq!(token.name(), Err(TokenError::NotInitialized));
    assert_eq!(token.symbol(), Err(TokenError::NotInitialized));
}

#[test]
fn operations_before_initialization_fail() {
    let mut token = SimpleToken::new();
    assert_eq!(token.mint(1, 11, 5), Err(TokenError::NotInitialized));
    assert_eq!(token.clawback(1, 11, 5), Err(TokenError::NotInitialized));
    assert_eq!(token.set_authorized(1, 11, false), Err(TokenError::NotInitialized));
    assert_eq!(token.set_admin(1, 2), Err(TokenError::NotInitialized));
}

#[test]
fn initialize_writes_metadata_and_admin() {
    let token = create_token(7);
    assert!(token.has_administrator());
    assert_eq!(token.read_administrator(), Ok(7));
    assert_eq!(token.decimals(), Ok(7));
    assert_eq!(token.name().unwrap(), &"name".as_bytes().to_vec());
    assert_eq!(token.symbol().unwrap(), &"symbol".as_bytes().to_vec());
}

#[test]
fn second_initialize_fails_and_changes_nothing() {
    let mut token = create_token(1);
    token.mint(1, 11, 10).unwrap();
    let r = token.initialize(2, 9, "other".as_bytes().to_vec(), "otr".as_bytes().to_vec());
    assert_eq!(r, Err(TokenError::AlreadyInitialized));
    assert_eq!(token.read_administrator(), Ok(1));
    assert_eq!(token.decimals(), Ok(7));
    assert_eq!(token.name().unwrap(), &"name".as_bytes().to_vec());
    assert_eq!(token.balance(11), 10);
}

#[test]
fn initialize_rejects_wide_decimal() {
    let mut token = SimpleToken::new();
    let r = token.initialize(1, 256, "name".as_bytes().to_vec(), "sym".as_bytes().to_vec());
    assert_eq!(r, Err(TokenError::InvalidDecimal));
    // The failed call wrote nothing, so a valid call still succeeds.
    assert!(!token.has_administrator());
    let r2 = token.initialize(1, 255, "name".as_bytes().to_vec(), "sym".as_bytes().to_vec());
    assert_eq!(r2, Ok(()));
    assert_eq!(token.decimals(), Ok(255));
}

#[test]
fn negative_amounts_are_rejected() {
    let mut token = create_token(1);
    token.mint(1, 11, 100).unwrap();
    assert_eq!(token.transfer(11, 11, 12, -1), Err(TokenError::NegativeAmount));
    assert_eq!(token.burn(11, 11, -1), Err(TokenError::NegativeAmount));
    assert_eq!(token.mint(1, 11, -1), Err(TokenError::NegativeAmount));
    assert_eq!(token.clawback(1, 11, -1), Err(TokenError::NegativeAmount));
    assert_eq!(token.balance(11), 100);
}

#[test]
fn proof_must_match_the_debited_holder() {
    let mut token = create_token(1);
    token.mint(1, 11, 100).unwrap();
    assert_eq!(token.transfer(12, 11, 12, 10), Err(TokenError::Unauthorized));
    assert_eq!(token.burn(12, 11, 10), Err(TokenError::Unauthorized));
    assert_eq!(token.balance(11), 100);
}

#[test]
fn privileged_operations_demand_the_admin() {
    let mut token = create_token(1);
    token.mint(1, 11, 100).unwrap();
    assert_eq!(token.mint(11, 11, 5), Err(TokenError::Unauthorized));
    assert_eq!(token.clawback(11, 11, 5), Err(TokenError::Unauthorized));
    assert_eq!(token.set_authorized(11, 12, false), Err(TokenError::Unauthorized));
    assert_eq!(token.set_admin(11, 11), Err(TokenError::Unauthorized));
    assert_eq!(token.balance(11), 100);
}

#[test]
fn former_admin_is_rejected_after_set_admin() {
    let mut token = create_token(1);
    token.set_admin(1, 2).unwrap();
    assert_eq!(token.mint(1, 11, 5), Err(TokenError::Unauthorized));
    assert_eq!(token.clawback(1, 11, 5), Err(TokenError::Unauthorized));
    assert_eq!(token.set_authorized(1, 11, false), Err(TokenError::Unauthorized));
    assert_eq!(token.set_admin(1, 1), Err(TokenError::Unauthorized));
    // The new administrator holds the role.
    assert_eq!(token.mint(2, 11, 5), Ok(()));
    assert_eq!(token.balance(11), 5);
}

#[test]
fn deauthorized_sender_cannot_transfer_or_burn() {
    let mut token = create_token(1);
    token.mint(1, 11, 100).unwrap();
    token.set_authorized(1, 11, false).unwrap();
    assert_eq!(token.transfer(11, 11, 12, 10), Err(TokenError::Deauthorized));
    assert_eq!(token.burn(11, 11, 10), Err(TokenError::Deauthorized));
    assert_eq!(token.balance(11), 100);
}

#[test]
fn deauthorized_recipient_cannot_receive() {
    let mut token = create_token(1);
    token.mint(1, 11, 100).unwrap();
    token.set_authorized(1, 12, false).unwrap();
    assert_eq!(token.transfer(11, 11, 12, 10), Err(TokenError::Deauthorized));
    assert_eq!(token.mint(1, 12, 10), Err(TokenError::Deauthorized));
    assert_eq!(token.balance(11), 100);
    assert_eq!(token.balance(12), 0);
}

#[test]
fn clawback_works_on_a_deauthorized_holder() {
    let mut token = create_token(1);
    token.mint(1, 11, 100).unwrap();
    token.set_authorized(1, 11, false).unwrap();
    assert_eq!(token.clawback(1, 11, 30), Ok(()));
    assert_eq!(token.balance(11), 70);
}

#[test]
fn overdraft_fails_and_changes_nothing() {
    let mut token = create_token(1);
    token.mint(1, 11, 100).unwrap();
    let events_before: usize = token.events().len();
    assert_eq!(token.transfer(11, 11, 12, 101), Err(TokenError::InsufficientBalance));
    assert_eq!(token.burn(11, 11, 101), Err(TokenError::InsufficientBalance));
    assert_eq!(token.clawback(1, 11, 101), Err(TokenError::InsufficientBalance));
    assert_eq!(token.balance(11), 100);
    assert_eq!(token.balance(12), 0);
    assert_eq!(token.events().len(), events_before);
}

#[test]
fn burn_shrinks_balance_and_logs() {
    let mut token = create_token(1);
    token.mint(1, 11, 100).unwrap();
    token.burn(11, 11, 40).unwrap();
    assert_eq!(token.balance(11), 60);
    assert_eq!(token.events().last(), Some(&TokenEvent::Burn { from: 11, amount: 40 }));
}

#[test]
fn transfers_conserve_the_sum_of_balances() {
    let mut token = create_token(1);
    assert_eq!(token.total_supply(), 0);
    token.mint(1, 11, 700).unwrap();
    assert_eq!(token.total_supply(), 700);
    token.mint(1, 12, 300).unwrap();
    assert_eq!(token.total_supply(), 1000);
    token.transfer(11, 11, 12, 250).unwrap();
    token.transfer(12, 12, 13, 500).unwrap();
    token.transfer(13, 13, 11, 100).unwrap();
    assert_eq!(token.total_supply(), 1000);
    let sum: i128 = token.balance(11) + token.balance(12) + token.balance(13);
    assert_eq!(sum, 1000);
    token.burn(11, 11, 50).unwrap();
    assert_eq!(token.total_supply(), 950);
    token.clawback(1, 12, 20).unwrap();
    assert_eq!(token.total_supply(), 930);
    let sum_after: i128 = token.balance(11) + token.balance(12) + token.balance(13);
    assert_eq!(sum_after, 930);
}

#[test]
fn the_largest_amount_moves_whole() {
    let mut token = create_token(1);
    token.mint(1, 11, i128::MAX).unwrap();
    assert_eq!(token.total_supply(), i128::MAX);
    token.transfer(11, 11, 12, i128::MAX).unwrap();
    assert_eq!(token.balance(11), 0);
    assert_eq!(token.balance(12), i128::MAX);
    assert_eq!(token.total_supply(), i128::MAX);
}

#[test]
fn self_transfer_keeps_the_balance() {
    let mut token = create_token(1);
    token.mint(1, 11, 100).unwrap();
    token.transfer(11, 11, 11, 60).unwrap();
    assert_eq!(token.balance(11), 100);
}

#[test]
fn zero_transfer_from_an_empty_balance_succeeds() {
    let mut token = create_token(1);
    assert_eq!(token.transfer(11, 11, 12, 0), Ok(()));
    assert_eq!(token.balance(11), 0);
    assert_eq!(token.balance(12), 0);
}

#[test]
fn reauthorization_restores_transfers() {
    let mut token = create_token(1);
    token.mint(1, 11, 100).unwrap();
    token.set_authorized(1, 11, false).unwrap();
    assert_eq!(token.transfer(11, 11, 12, 10), Err(TokenError::Deauthorized));
    token.set_authorized(1, 11, true).unwrap();
    assert_eq!(token.transfer(11, 11, 12, 10), Ok(()));
    assert_eq!(token.balance(12), 10);
}

#[test]
fn the_audit_log_records_each_success_in_order() {
    let mut token = create_token(1);
    token.mint(1, 11, 100).unwrap();
    let _ = token.mint(2, 11, 5);
    token.transfer(11, 11, 12, 30).unwrap();
    token.set_admin(1, 2).unwrap();
    assert_eq!(
        token.events(),
        &vec![
            TokenEvent::Mint { admin: 1, to: 11, amount: 100 },
            TokenEvent::Transfer { from: 11, to: 12, amount: 30 },
            TokenEvent::SetAdmin { admin: 1, new_admin: 2 },
        ]
    );
}
