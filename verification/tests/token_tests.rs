use token_registry::erc721::ERC721;
use token_registry::errors::{
    ApproveError, BurnError, ErrorKind, MintError, OwnershipError, TransferError,
};
use token_registry::events::Event;

fn s(text: &str) -> String {
    text.to_string()
}

fn registry_with_token() -> ERC721 {
    let mut nft = ERC721::new(s("owner"));
    nft.mint(s("owner"), s("alice"), 1, None).unwrap();
    nft
}

#[test]
fn test_mint_and_transfer() {
    let mut erc721 = ERC721::new("owner".to_string());

    // Mint token
    assert!(erc721.mint("owner".to_string(), "owner".to_string(), 1, None).is_ok());
    assert_eq!(erc721.owner_of(1).unwrap(), "owner".to_string());

    // Transfer token
    assert!(erc721
        .transfer("owner".to_string(), "owner".to_string(), "user1".to_string(), 1)
        .is_ok());
    assert_eq!(erc721.owner_of(1).unwrap(), "user1".to_string());

    // Unauthorized transfer should fail
    assert!(erc721
        .transfer("owner".to_string(), "owner".to_string(), "user2".to_string(), 1)
        .is_err());
}

#[test]
fn test_approval_and_transfer() {
    let mut erc721 = ERC721::new("owner".to_string());

    // Mint token
    erc721.mint("owner".to_string(), "owner".to_string(), 1, None).unwrap();

    // Approve transfer
    assert!(erc721.approve("owner".to_string(), "user1".to_string(), 1).is_ok());
    assert_eq!(erc721.get_approved(1).unwrap(), "user1".to_string());

    // Approved user can transfer
    assert!(erc721
        .transfer("user1".to_string(), "owner".to_string(), "user2".to_string(), 1)
        .is_ok());
    assert_eq!(erc721.owner_of(1).unwrap(), "user2".to_string());
}

#[test]
fn new_registry_is_empty() {
    let nft = ERC721::new(s("owner"));
    assert_eq!(nft.contract_owner(), s("owner"));
    assert_eq!(nft.owner_of(1), None);
    assert_eq!(nft.get_approved(1), None);
    assert_eq!(nft.token_uri(1), None);
    assert_eq!(nft.balance_of(s("owner")), 0);
    assert_eq!(nft.tokens_of_owner(s("owner")), Vec::<u64>::new());
    assert!(!nft.is_approved_for_all(s("owner"), s("bob")));
    assert!(!nft.is_approved_or_owner(s("owner"), 1));
}

#[test]
fn mint_records_owner_and_balance() {
    let mut nft = ERC721::new(s("owner"));
    let r = nft.mint(s("owner"), s("alice"), 1, None);
    assert_eq!(r, Ok(Event::Mint { recipient: s("alice"), token_id: 1 }));
    assert_eq!(nft.owner_of(1), Some(s("alice")));
    assert_eq!(nft.balance_of(s("alice")), 1);
    assert_eq!(nft.balance_of(s("owner")), 0);
    assert_eq!(nft.tokens_of_owner(s("alice")), vec![1]);
    assert_eq!(nft.token_uri(1), None);
}

#[test]
fn mint_stores_metadata() {
    let mut nft = ERC721::new(s("owner"));
    let r = nft.mint(s("owner"), s("user1"), 1, Some(s("https://example.com/metadata/1")));
    assert!(r.is_ok());
    assert_eq!(nft.owner_of(1), Some(s("user1")));
    assert_eq!(nft.token_uri(1), Some(s("https://example.com/metadata/1")));
}

#[test]
fn mint_by_other_than_contract_owner_is_unauthorized() {
    let mut nft = ERC721::new(s("owner"));
    assert_eq!(nft.mint(s("alice"), s("alice"), 1, None), Err(MintError::Unauthorized));
    assert_eq!(nft.owner_of(1), None);
    assert_eq!(nft.balance_of(s("alice")), 0);
}

#[test]
fn mint_checks_the_caller_before_the_token_id() {
    let mut nft = registry_with_token();
    assert_eq!(nft.mint(s("eve"), s("eve"), 0, None), Err(MintError::Unauthorized));
    assert_eq!(nft.mint(s("eve"), s("eve"), 1, None), Err(MintError::Unauthorized));
}

#[test]
fn mint_of_token_zero_is_invalid() {
    let mut nft = ERC721::new(s("owner"));
    assert_eq!(nft.mint(s("owner"), s("alice"), 0, None), Err(MintError::InvalidTokenId));
    assert_eq!(nft.owner_of(0), None);
    assert_eq!(nft.balance_of(s("alice")), 0);
}

#[test]
fn mint_of_live_token_fails_and_changes_nothing() {
    let mut nft = ERC721::new(s("owner"));
    nft.mint(s("owner"), s("alice"), 1, Some(s("first"))).unwrap();
    assert_eq!(
        nft.mint(s("owner"), s("bob"), 1, Some(s("second"))),
        Err(MintError::AlreadyExists)
    );
    assert_eq!(nft.owner_of(1), Some(s("alice")));
    assert_eq!(nft.token_uri(1), Some(s("first")));
    assert_eq!(nft.balance_of(s("alice")), 1);
    assert_eq!(nft.balance_of(s("bob")), 0);
}

#[test]
fn delegate_transfers_token() {
    let mut nft = registry_with_token();
    assert_eq!(
        nft.approve(s("alice"), s("bob"), 1),
        Ok(Event::Approval { owner: s("alice"), delegate: s("bob"), token_id: 1 })
    );
    assert_eq!(
        nft.transfer(s("bob"), s("alice"), s("carol"), 1),
        Ok(Event::Transfer { from: s("alice"), to: s("carol"), token_id: 1 })
    );
    assert_eq!(nft.owner_of(1), Some(s("carol")));
    assert_eq!(nft.get_approved(1), None);
    assert_eq!(nft.balance_of(s("alice")), 0);
    assert_eq!(nft.balance_of(s("carol")), 1);
    assert_eq!(nft.tokens_of_owner(s("alice")), Vec::<u64>::new());
    assert_eq!(nft.tokens_of_owner(s("carol")), vec![1]);
}

#[test]
fn unrelated_caller_cannot_transfer() {
    let mut nft = registry_with_token();
    nft.approve(s("alice"), s("bob"), 1).unwrap();
    assert_eq!(nft.transfer(s("eve"), s("alice"), s("eve"), 1), Err(TransferError::Unauthorized));
    assert_eq!(nft.owner_of(1), Some(s("alice")));
    assert_eq!(nft.get_approved(1), Some(s("bob")));
    assert_eq!(nft.balance_of(s("alice")), 1);
    assert_eq!(nft.balance_of(s("eve")), 0);
    assert_eq!(nft.tokens_of_owner(s("alice")), vec![1]);
    assert_eq!(nft.tokens_of_owner(s("eve")), Vec::<u64>::new());
}

#[test]
fn transfer_of_missing_token_is_not_found() {
    let mut nft = registry_with_token();
    assert_eq!(
        nft.transfer(s("alice"), s("alice"), s("bob"), 2),
        Err(TransferError::TokenNotFound)
    );
}

#[test]
fn transfer_from_wrong_account_is_owner_mismatch() {
    let mut nft = registry_with_token();
    assert_eq!(
        nft.transfer(s("alice"), s("bob"), s("carol"), 1),
        Err(TransferError::OwnerMismatch)
    );
    assert_eq!(nft.owner_of(1), Some(s("alice")));
    assert_eq!(nft.balance_of(s("alice")), 1);
    assert_eq!(nft.balance_of(s("bob")), 0);
    assert_eq!(nft.balance_of(s("carol")), 0);
}

#[test]
fn transfer_checks_the_caller_before_the_sender() {
    let mut nft = registry_with_token();
    assert_eq!(nft.transfer(s("eve"), s("bob"), s("eve"), 1), Err(TransferError::Unauthorized));
}

#[test]
fn owner_transfers_own_token() {
    let mut nft = ERC721::new(s("owner"));
    nft.mint(s("owner"), s("user1"), 1, Some(s("https://example.com/metadata/1"))).unwrap();
    assert!(nft.transfer(s("user1"), s("user1"), s("user2"), 1).is_ok());
    assert_eq!(nft.owner_of(1), Some(s("user2")));
    assert_eq!(nft.token_uri(1), Some(s("https://example.com/metadata/1")));
}

#[test]
fn transfer_to_self_moves_token_to_the_end() {
    let mut nft = ERC721::new(s("owner"));
    nft.mint(s("owner"), s("alice"), 1, None).unwrap();
    nft.mint(s("owner"), s("alice"), 2, None).unwrap();
    nft.approve(s("alice"), s("bob"), 1).unwrap();
    assert!(nft.transfer(s("alice"), s("alice"), s("alice"), 1).is_ok());
    assert_eq!(nft.tokens_of_owner(s("alice")), vec![2, 1]);
    assert_eq!(nft.balance_of(s("alice")), 2);
    assert_eq!(nft.get_approved(1), None);
}

#[test]
fn operator_transfers_any_token_of_the_owner() {
    let mut nft = ERC721::new(s("owner"));
    nft.mint(s("owner"), s("alice"), 1, None).unwrap();
    nft.mint(s("owner"), s("alice"), 2, None).unwrap();
    nft.set_approval_for_all(s("alice"), s("op"), true);
    assert!(nft.is_approved_or_owner(s("op"), 1));
    assert!(nft.transfer(s("op"), s("alice"), s("bob"), 1).is_ok());
    assert!(nft.transfer(s("op"), s("alice"), s("carol"), 2).is_ok());
    assert_eq!(nft.owner_of(1), Some(s("bob")));
    assert_eq!(nft.owner_of(2), Some(s("carol")));
    // The approval is for the tokens of alice, not for those of bob.
    assert_eq!(nft.transfer(s("op"), s("bob"), s("op"), 1), Err(TransferError::Unauthorized));
}

#[test]
fn approval_does_not_survive_a_transfer() {
    let mut nft = registry_with_token();
    nft.approve(s("alice"), s("bob"), 1).unwrap();
    nft.transfer(s("alice"), s("alice"), s("carol"), 1).unwrap();
    assert_eq!(nft.get_approved(1), None);
    assert_eq!(nft.transfer(s("bob"), s("carol"), s("bob"), 1), Err(TransferError::Unauthorized));
}

#[test]
fn approve_and_get_approved() {
    let mut nft = ERC721::new(s("owner"));
    nft.mint(s("owner"), s("user1"), 1, Some(s("https://example.com/metadata/1"))).unwrap();
    assert!(nft.approve(s("user1"), s("user2"), 1).is_ok());
    assert_eq!(nft.get_approved(1), Some(s("user2")));
}

#[test]
fn approve_replaces_the_earlier_delegate() {
    let mut nft = registry_with_token();
    nft.approve(s("alice"), s("bob"), 1).unwrap();
    nft.approve(s("alice"), s("carol"), 1).unwrap();
    assert_eq!(nft.get_approved(1), Some(s("carol")));
    assert!(!nft.is_approved_or_owner(s("bob"), 1));
    assert!(nft.is_approved_or_owner(s("carol"), 1));
}

#[test]
fn approve_by_other_than_owner_is_unauthorized() {
    let mut nft = registry_with_token();
    assert_eq!(nft.approve(s("eve"), s("eve"), 1), Err(ApproveError::Unauthorized));
    assert_eq!(nft.approve(s("owner"), s("eve"), 1), Err(ApproveError::Unauthorized));
    assert_eq!(nft.get_approved(1), None);
}

#[test]
fn approve_of_missing_token_is_not_found() {
    let mut nft = registry_with_token();
    assert_eq!(nft.approve(s("alice"), s("bob"), 7), Err(ApproveError::TokenNotFound));
    assert_eq!(nft.get_approved(7), None);
}

#[test]
fn delegate_cannot_approve() {
    let mut nft = registry_with_token();
    nft.approve(s("alice"), s("bob"), 1).unwrap();
    assert_eq!(nft.approve(s("bob"), s("carol"), 1), Err(ApproveError::Unauthorized));
    assert_eq!(nft.get_approved(1), Some(s("bob")));
}

#[test]
fn set_and_is_approved_for_all() {
    let mut nft = ERC721::new(s("owner"));
    nft.mint(s("owner"), s("user1"), 1, Some(s("https://example.com/metadata/1"))).unwrap();
    let e = nft.set_approval_for_all(s("user1"), s("operator1"), true);
    assert_eq!(e, Event::ApprovalForAll { owner: s("user1"), operator: s("operator1") });
    assert!(nft.is_approved_for_all(s("user1"), s("operator1")));
    assert!(!nft.is_approved_for_all(s("operator1"), s("user1")));
    assert!(!nft.is_approved_for_all(s("user1"), s("operator2")));
}

#[test]
fn set_approval_for_all_is_idempotent() {
    let mut nft = ERC721::new(s("owner"));
    let first = nft.set_approval_for_all(s("alice"), s("op"), true);
    let second = nft.set_approval_for_all(s("alice"), s("op"), true);
    assert_eq!(first, second);
    assert!(nft.is_approved_for_all(s("alice"), s("op")));
    // One withdrawal undoes both.
    let e = nft.set_approval_for_all(s("alice"), s("op"), false);
    assert_eq!(e, Event::RevokeOperator { owner: s("alice"), operator: s("op") });
    assert!(!nft.is_approved_for_all(s("alice"), s("op")));
    nft.set_approval_for_all(s("alice"), s("op"), false);
    assert!(!nft.is_approved_for_all(s("alice"), s("op")));
}

#[test]
fn operators_are_kept_per_owner() {
    let mut nft = ERC721::new(s("owner"));
    nft.set_approval_for_all(s("alice"), s("op1"), true);
    nft.set_approval_for_all(s("alice"), s("op2"), true);
    nft.set_approval_for_all(s("bob"), s("op1"), true);
    nft.set_approval_for_all(s("alice"), s("op1"), false);
    assert!(!nft.is_approved_for_all(s("alice"), s("op1")));
    assert!(nft.is_approved_for_all(s("alice"), s("op2")));
    assert!(nft.is_approved_for_all(s("bob"), s("op1")));
}

#[test]
fn operator_approval_covers_future_tokens() {
    let mut nft = ERC721::new(s("owner"));
    nft.set_approval_for_all(s("alice"), s("op"), true);
    nft.mint(s("owner"), s("alice"), 5, None).unwrap();
    assert!(nft.transfer(s("op"), s("alice"), s("bob"), 5).is_ok());
    assert_eq!(nft.owner_of(5), Some(s("bob")));
}

#[test]
fn is_approved_or_owner_covers_owner_delegate_and_operator() {
    let mut nft = registry_with_token();
    nft.approve(s("alice"), s("bob"), 1).unwrap();
    nft.set_approval_for_all(s("alice"), s("op"), true);
    assert!(nft.is_approved_or_owner(s("alice"), 1));
    assert!(nft.is_approved_or_owner(s("bob"), 1));
    assert!(nft.is_approved_or_owner(s("op"), 1));
    assert!(!nft.is_approved_or_owner(s("eve"), 1));
    assert!(!nft.is_approved_or_owner(s("alice"), 2));
}

#[test]
fn burn_by_owner_then_mint_again() {
    let mut nft = ERC721::new(s("owner"));
    nft.mint(s("owner"), s("alice"), 1, Some(s("uri"))).unwrap();
    nft.approve(s("alice"), s("bob"), 1).unwrap();
    assert_eq!(nft.burn(s("alice"), 1), Ok(Event::Burn { owner: s("alice"), token_id: 1 }));
    assert_eq!(nft.owner_of(1), None);
    assert_eq!(nft.get_approved(1), None);
    assert_eq!(nft.token_uri(1), None);
    assert_eq!(nft.balance_of(s("alice")), 0);
    assert_eq!(nft.tokens_of_owner(s("alice")), Vec::<u64>::new());
    // A burned id is free again.
    assert!(nft.mint(s("owner"), s("carol"), 1, None).is_ok());
    assert_eq!(nft.owner_of(1), Some(s("carol")));
    assert_eq!(nft.get_approved(1), None);
    assert_eq!(nft.token_uri(1), None);
    assert_eq!(nft.balance_of(s("carol")), 1);
}

#[test]
fn burn_by_operator_names_the_owner() {
    let mut nft = registry_with_token();
    nft.set_approval_for_all(s("alice"), s("op"), true);
    assert_eq!(nft.burn(s("op"), 1), Ok(Event::Burn { owner: s("alice"), token_id: 1 }));
    assert_eq!(nft.owner_of(1), None);
    assert_eq!(nft.balance_of(s("alice")), 0);
}

#[test]
fn delegate_cannot_burn() {
    let mut nft = registry_with_token();
    nft.approve(s("alice"), s("bob"), 1).unwrap();
    assert_eq!(nft.burn(s("bob"), 1), Err(BurnError::Unauthorized));
    assert_eq!(nft.owner_of(1), Some(s("alice")));
    assert_eq!(nft.get_approved(1), Some(s("bob")));
    assert_eq!(nft.balance_of(s("alice")), 1);
}

#[test]
fn contract_owner_cannot_burn_a_token_of_another() {
    let mut nft = registry_with_token();
    assert_eq!(nft.burn(s("owner"), 1), Err(BurnError::Unauthorized));
}

#[test]
fn burn_of_missing_token_is_not_found() {
    let mut nft = registry_with_token();
    assert_eq!(nft.burn(s("alice"), 2), Err(BurnError::TokenNotFound));
    nft.burn(s("alice"), 1).unwrap();
    assert_eq!(nft.burn(s("alice"), 1), Err(BurnError::TokenNotFound));
    assert_eq!(nft.balance_of(s("alice")), 0);
}

#[test]
fn contract_ownership_moves_the_right_to_mint() {
    let mut nft = ERC721::new(s("owner"));
    assert_eq!(
        nft.transfer_ownership(s("eve"), s("eve")),
        Err(OwnershipError::Unauthorized)
    );
    assert_eq!(nft.contract_owner(), s("owner"));
    assert_eq!(
        nft.transfer_ownership(s("owner"), s("next")),
        Ok(Event::OwnershipTransferred { previous: s("owner"), new_owner: s("next") })
    );
    assert_eq!(nft.contract_owner(), s("next"));
    assert_eq!(nft.mint(s("owner"), s("alice"), 1, None), Err(MintError::Unauthorized));
    assert!(nft.mint(s("next"), s("alice"), 1, None).is_ok());
}

#[test]
fn tokens_are_listed_in_order_of_acquisition() {
    let mut nft = ERC721::new(s("owner"));
    nft.mint(s("owner"), s("alice"), 3, None).unwrap();
    nft.mint(s("owner"), s("alice"), 1, None).unwrap();
    nft.mint(s("owner"), s("bob"), 2, None).unwrap();
    nft.mint(s("owner"), s("alice"), 9, None).unwrap();
    assert_eq!(nft.tokens_of_owner(s("alice")), vec![3, 1, 9]);
    nft.transfer(s("alice"), s("alice"), s("bob"), 1).unwrap();
    assert_eq!(nft.tokens_of_owner(s("alice")), vec![3, 9]);
    assert_eq!(nft.tokens_of_owner(s("bob")), vec![2, 1]);
    nft.burn(s("bob"), 2).unwrap();
    assert_eq!(nft.tokens_of_owner(s("bob")), vec![1]);
}

#[test]
fn every_token_has_exactly_one_holder() {
    let mut nft = ERC721::new(s("owner"));
    let accounts = ["alice", "bob", "carol"];
    nft.mint(s("owner"), s("alice"), 1, None).unwrap();
    nft.mint(s("owner"), s("bob"), 2, None).unwrap();
    nft.mint(s("owner"), s("alice"), 3, None).unwrap();
    nft.transfer(s("alice"), s("alice"), s("carol"), 1).unwrap();
    nft.transfer(s("carol"), s("carol"), s("bob"), 1).unwrap();
    nft.transfer(s("bob"), s("bob"), s("alice"), 2).unwrap();
    for token in 1..=3u64 {
        let mut holders = 0;
        for account in accounts {
            let held = nft.tokens_of_owner(s(account));
            let count = held.iter().filter(|t| **t == token).count();
            assert!(count <= 1);
            if count == 1 {
                assert_eq!(nft.owner_of(token), Some(s(account)));
                holders += 1;
            }
        }
        assert_eq!(holders, 1);
    }
}

#[test]
fn balances_add_up_to_the_number_of_tokens() {
    let mut nft = ERC721::new(s("owner"));
    let accounts = ["owner", "alice", "bob", "carol"];
    let total = |nft: &ERC721| -> u64 { accounts.iter().map(|a| nft.balance_of(s(a))).sum() };
    let live = |nft: &ERC721| -> u64 {
        (1..=4u64).filter(|t| nft.owner_of(*t).is_some()).count() as u64
    };
    assert_eq!(total(&nft), 0);
    for (token, to) in [(1u64, "alice"), (2, "bob"), (3, "alice"), (4, "carol")] {
        nft.mint(s("owner"), s(to), token, None).unwrap();
        assert_eq!(total(&nft), live(&nft));
    }
    assert_eq!(total(&nft), 4);
    nft.transfer(s("alice"), s("alice"), s("bob"), 1).unwrap();
    assert_eq!(total(&nft), 4);
    assert_eq!(nft.balance_of(s("alice")), 1);
    assert_eq!(nft.balance_of(s("bob")), 2);
    nft.burn(s("bob"), 2).unwrap();
    assert_eq!(total(&nft), 3);
    assert_eq!(total(&nft), live(&nft));
    // Failed calls leave the sums alone.
    assert!(nft.transfer(s("eve"), s("alice"), s("eve"), 3).is_err());
    assert!(nft.burn(s("eve"), 3).is_err());
    assert!(nft.mint(s("eve"), s("eve"), 8, None).is_err());
    assert_eq!(total(&nft), 3);
    for account in accounts {
        assert_eq!(nft.balance_of(s(account)), nft.tokens_of_owner(s(account)).len() as u64);
    }
}

#[test]
fn token_errors_have_kind_and_message() {
    assert_eq!(MintError::Unauthorized.kind(), ErrorKind::Unauthorized);
    assert_eq!(MintError::InvalidTokenId.kind(), ErrorKind::InvalidArgument);
    assert_eq!(MintError::AlreadyExists.kind(), ErrorKind::AlreadyExists);
    assert_eq!(TransferError::TokenNotFound.kind(), ErrorKind::NotFound);
    assert_eq!(TransferError::Unauthorized.kind(), ErrorKind::Unauthorized);
    assert_eq!(TransferError::OwnerMismatch.kind(), ErrorKind::OwnerMismatch);
    assert_eq!(ApproveError::TokenNotFound.kind(), ErrorKind::NotFound);
    assert_eq!(ApproveError::Unauthorized.kind(), ErrorKind::Unauthorized);
    assert_eq!(BurnError::TokenNotFound.kind(), ErrorKind::NotFound);
    assert_eq!(BurnError::Unauthorized.kind(), ErrorKind::Unauthorized);
    assert_eq!(OwnershipError::Unauthorized.kind(), ErrorKind::Unauthorized);

    assert_eq!(MintError::Unauthorized.message(), "Only the contract owner can mint new tokens");
    assert_eq!(MintError::InvalidTokenId.message(), "Token ID must not be zero");
    assert_eq!(MintError::AlreadyExists.message(), "Token ID already exists");
    assert_eq!(TransferError::TokenNotFound.message(), "Token does not exist");
    assert_eq!(TransferError::Unauthorized.message(), "Unauthorized transfer attempt");
    assert_eq!(TransferError::OwnerMismatch.message(), "Token is not owned by the sender");
    assert_eq!(ApproveError::TokenNotFound.message(), "Token does not exist");
    assert_eq!(ApproveError::Unauthorized.message(), "Only the owner can approve");
    assert_eq!(BurnError::TokenNotFound.message(), "Token does not exist");
    assert_eq!(BurnError::Unauthorized.message(), "Only the owner or an operator can burn");
    assert_eq!(
        OwnershipError::Unauthorized.message(),
        "Only the current owner can transfer ownership"
    );
}
