use paradigm_core::address::Address;
use paradigm_core::tokenomics::core_token::{CoreToken, TokenError, MAX_SUPPLY};

#[test]
fn test_core_token_basic_operations() {
    let mut token = CoreToken::new();
    token.initialize().unwrap();

    let addr1 = Address([31u8; 32]);
    let addr2 = Address([32u8; 32]);

    // Mint tokens
    token.mint_tokens(&addr1, 1000000000).unwrap(); // 10 PAR
    assert_eq!(token.balance_of(&addr1), 1000000000);
    assert_eq!(token.total_supply(), 1000000000);

    // Transfer tokens
    token.transfer(&addr1, &addr2, 500000000).unwrap(); // 5 PAR
    assert_eq!(token.balance_of(&addr1), 500000000);
    assert_eq!(token.balance_of(&addr2), 500000000);

    // Freeze tokens
    token.freeze_tokens(&addr1, 200000000).unwrap(); // 2 PAR
    assert_eq!(token.available_balance(&addr1), 300000000); // 3 PAR available
}

#[test]
fn test_compute_credits() {
    let mut token = CoreToken::new();
    let addr = Address([33u8; 32]);

    token.mint_tokens(&addr, 1000000000).unwrap(); // 10 PAR
    let credits = token.get_compute_credits(&addr);

    assert_eq!(credits.par_balance, 1000000000);
    assert_eq!(credits.cpu_credits, 1000000);
    assert_eq!(credits.gpu_credits, 100000);
}

#[test]
fn transfer_errors() {
    let mut token = CoreToken::new();
    let a = Address([1u8; 32]);
    let b = Address([2u8; 32]);
    token.mint_tokens(&a, 100).unwrap();
    assert_eq!(token.transfer(&a, &a, 1), Err(TokenError::SameAddress));
    assert_eq!(token.transfer(&a, &b, 101), Err(TokenError::InsufficientBalance));
    token.freeze_tokens(&a, 60).unwrap();
    assert_eq!(token.transfer(&a, &b, 41), Err(TokenError::InsufficientBalance));
    assert_eq!(token.transfer(&a, &b, 40), Ok(()));
    assert_eq!(token.balance_of(&a), 60);
    assert_eq!(token.available_balance(&a), 0);
    assert_eq!(token.total_supply(), 100);
}

#[test]
fn allowances_limit_transfer_from() {
    let mut token = CoreToken::new();
    let owner = Address([1u8; 32]);
    let spender = Address([2u8; 32]);
    let to = Address([3u8; 32]);
    token.mint_tokens(&owner, 1000).unwrap();
    token.approve(&owner, &spender, 300).unwrap();
    assert_eq!(token.transfer_from(&spender, &owner, &to, 301), Err(TokenError::InsufficientAllowance));
    assert_eq!(token.transfer_from(&spender, &owner, &to, 200), Ok(()));
    assert_eq!(token.balance_of(&to), 200);
    assert_eq!(token.transfer_from(&spender, &owner, &to, 101), Err(TokenError::InsufficientAllowance));
    assert_eq!(token.transfer_from(&spender, &owner, &to, 100), Ok(()));
    assert_eq!(token.balance_of(&owner), 700);
}

#[test]
fn mint_and_burn_move_the_supply() {
    let mut token = CoreToken::new();
    let a = Address([4u8; 32]);
    assert_eq!(token.mint_tokens(&a, 0), Err(TokenError::ZeroMint));
    assert_eq!(token.mint_tokens(&a, 500), Ok(500));
    assert_eq!(token.burn_tokens(&a, 501), Err(TokenError::InsufficientBalanceToBurn));
    token.burn_tokens(&a, 200).unwrap();
    assert_eq!(token.total_supply(), 300);
    assert_eq!(token.balance_of(&a), 300);
    assert_eq!(token.get_mint_history().len(), 1);
    assert_eq!(token.get_burn_history().len(), 1);
    assert_eq!(token.get_mint_history()[0].amount, 500);
    assert_eq!(token.get_burn_history()[0].amount, 200);
}

#[test]
fn freeze_and_unfreeze_round_trip() {
    let mut token = CoreToken::new();
    let a = Address([5u8; 32]);
    token.mint_tokens(&a, 100).unwrap();
    assert_eq!(token.freeze_tokens(&a, 101), Err(TokenError::InsufficientAvailableToFreeze));
    token.freeze_tokens(&a, 70).unwrap();
    assert_eq!(token.unfreeze_tokens(&a, 71), Err(TokenError::UnfreezeExceedsFrozen));
    token.unfreeze_tokens(&a, 70).unwrap();
    assert_eq!(token.available_balance(&a), 100);
}

#[test]
fn token_metadata() {
    let token = CoreToken::new();
    let info = token.get_token_info();
    assert_eq!(info.symbol, "PAR");
    assert_eq!(info.decimals, 8);
    assert_eq!(token.total_supply(), 0);
}

#[test]
fn mint_past_the_fixed_supply_is_refused() {
    let mut token = CoreToken::new();
    let a = Address([6u8; 32]);
    assert_eq!(MAX_SUPPLY, 100_000_000_000_000_000);
    assert_eq!(token.mint_tokens(&a, 100_000_000_000_000_001), Err(TokenError::SupplyCapExceeded));
    assert_eq!(token.total_supply(), 0);
    assert_eq!(token.balance_of(&a), 0);
    assert_eq!(token.get_mint_history().len(), 0);
    assert_eq!(token.mint_tokens(&a, 99_999_999_999_999_000), Ok(99_999_999_999_999_000));
    assert_eq!(token.mint_tokens(&a, 1_001), Err(TokenError::SupplyCapExceeded));
    assert_eq!(token.mint_tokens(&a, 1_000), Ok(1_000));
    assert_eq!(token.total_supply(), MAX_SUPPLY);
    assert_eq!(token.mint_tokens(&a, 1), Err(TokenError::SupplyCapExceeded));
}
