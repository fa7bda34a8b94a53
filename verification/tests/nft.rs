use token_ledger::{Address, Error, NFTContract, Notification, NFT};

const FIRST_TOKEN_ID: u64 = 5042;
const SECOND_TOKEN_ID: u64 = 79217;
const NON_EXISTENT_TOKEN_ID: u64 = 13;

struct NFTTest {
    admin: Address,
    owner: Address,
    other: Address,
    token: NFTContract,
}

fn setup() -> NFTTest {
    let admin = Address::from_str("GADMIN");
    let owner = Address::from_str("GOWNER");
    let other = Address::from_str("GOTHER");
    let mut token = NFTContract::new();
    token.initialize(admin.clone());
    NFTTest { admin, owner, other, token }
}

fn setup_with_minted_tokens() -> NFTTest {
    let mut test = setup();
    let tokens = [FIRST_TOKEN_ID, SECOND_TOKEN_ID]
        .iter()
        .map(|id| NFT { id: *id, owner: test.owner.clone(), metadata: String::new() })
        .collect();
    test.token = NFTContract::from_stored(Some(test.admin.clone()), Some(0), tokens);
    test
}

#[test]
fn test_owner_of_when_the_given_token_id_was_tracked_by_this_token_it_returns_the_owner_of_the_given_token_id(
) {
    let NFTTest { owner, token, .. } = setup_with_minted_tokens();

    assert_eq!(token.get_owner(FIRST_TOKEN_ID), Ok(owner));
}

#[test]
fn test_transfers_it_transfers_the_ownership_of_the_given_token_id_to_the_given_address() {
    let NFTTest { owner, other, mut token, .. } = setup_with_minted_tokens();

    assert_eq!(token.transfer(owner.clone(), other.clone(), FIRST_TOKEN_ID), Ok(()));
    assert_eq!(token.get_owner(FIRST_TOKEN_ID), Ok(other));
    assert_eq!(token.get_owner(SECOND_TOKEN_ID), Ok(owner));
}

#[test]
fn owner_of_an_untracked_token_is_not_found() {
    let NFTTest { token, .. } = setup_with_minted_tokens();

    assert_eq!(token.get_owner(NON_EXISTENT_TOKEN_ID), Err(Error::NotFound));
    assert_eq!(token.get_nft(NON_EXISTENT_TOKEN_ID), Err(Error::NotFound));
}

#[test]
fn mint_transfer_and_refusal_end_to_end() {
    let NFTTest { admin, other: x, mut token, .. } = setup();

    assert_eq!(token.mint(admin.clone(), String::from("uri")), Ok(1));
    assert_eq!(token.transfer(admin.clone(), x.clone(), 1), Ok(()));
    assert_eq!(token.get_owner(1), Ok(x.clone()));
    assert_eq!(token.mint(x, String::from("uri")), Err(Error::Unauthorized));
    assert_eq!(token.next_nft_id, 1);
}

#[test]
fn only_the_admin_mints() {
    let NFTTest { admin, owner, mut token, .. } = setup();

    assert_eq!(token.mint(owner.clone(), String::from("a")), Err(Error::Unauthorized));
    assert_eq!(token.next_nft_id, 0);
    assert!(token.nfts.is_empty());
    assert!(token.notifications.is_empty());
    assert_eq!(token.mint(admin, String::from("a")), Ok(1));
    assert_eq!(token.mint(owner, String::from("b")), Err(Error::Unauthorized));
    assert_eq!(token.next_nft_id, 1);
}

#[test]
fn nobody_mints_before_the_registry_is_initialized() {
    let mut token = NFTContract::new();
    let anyone = Address::from_str("GANYONE");

    assert_eq!(token.mint(anyone, String::from("uri")), Err(Error::Unauthorized));
    assert_eq!(token.next_nft_id, 0);
}

#[test]
fn mints_return_one_to_n_in_order() {
    let NFTTest { admin, owner, mut token, .. } = setup();

    for expected in 1..=25u64 {
        assert_eq!(token.mint(owner.clone(), String::from("no")), Err(Error::Unauthorized));
        assert_eq!(token.mint(admin.clone(), format!("uri-{}", expected)), Ok(expected));
        assert_eq!(token.next_nft_id, expected);
    }
    assert_eq!(token.nfts.len(), 25);
    for id in 1..=25u64 {
        let nft = token.get_nft(id).unwrap();
        assert_eq!(nft.id, id);
        assert_eq!(nft.owner, admin);
        assert_eq!(nft.metadata, format!("uri-{}", id));
    }
    assert_eq!(token.get_nft(0), Err(Error::NotFound));
    assert_eq!(token.get_nft(26), Err(Error::NotFound));
}

#[test]
fn get_nft_returns_the_minted_token() {
    let NFTTest { admin, mut token, .. } = setup();

    assert_eq!(token.mint(admin.clone(), String::from("ipfs://token")), Ok(1));
    assert_eq!(
        token.get_nft(1),
        Ok(NFT { id: 1, owner: admin, metadata: String::from("ipfs://token") })
    );
}

#[test]
fn only_the_owner_transfers() {
    let NFTTest { admin, owner, other, mut token } = setup();

    assert_eq!(token.mint(admin.clone(), String::from("uri")), Ok(1));
    assert_eq!(token.transfer(owner.clone(), other.clone(), 1), Err(Error::Unauthorized));
    assert_eq!(token.get_owner(1), Ok(admin.clone()));
    assert_eq!(token.transfer(admin.clone(), owner.clone(), 1), Ok(()));
    assert_eq!(token.get_owner(1), Ok(owner.clone()));
    assert_eq!(token.transfer(admin, other.clone(), 1), Err(Error::Unauthorized));
    assert_eq!(token.get_owner(1), Ok(owner.clone()));
    assert_eq!(token.transfer(owner, other.clone(), 1), Ok(()));
    assert_eq!(token.get_owner(1), Ok(other));
}

#[test]
fn a_transfer_keeps_id_and_metadata() {
    let NFTTest { admin, other, mut token, .. } = setup();

    assert_eq!(token.mint(admin.clone(), String::from("uri")), Ok(1));
    assert_eq!(token.transfer(admin, other.clone(), 1), Ok(()));
    assert_eq!(token.get_nft(1), Ok(NFT { id: 1, owner: other, metadata: String::from("uri") }));
}

#[test]
fn a_transfer_to_oneself_succeeds() {
    let NFTTest { admin, mut token, .. } = setup();

    assert_eq!(token.mint(admin.clone(), String::from("uri")), Ok(1));
    assert_eq!(token.transfer(admin.clone(), admin.clone(), 1), Ok(()));
    assert_eq!(token.get_owner(1), Ok(admin));
}

#[test]
fn ids_never_minted_are_not_found() {
    let NFTTest { admin, other, mut token, .. } = setup();

    assert_eq!(token.transfer(admin.clone(), other.clone(), 1), Err(Error::NotFound));
    assert_eq!(token.get_nft(1), Err(Error::NotFound));
    assert_eq!(token.get_owner(1), Err(Error::NotFound));
    assert_eq!(token.mint(admin.clone(), String::from("uri")), Ok(1));
    assert_eq!(token.transfer(admin.clone(), other.clone(), 0), Err(Error::NotFound));
    assert_eq!(token.transfer(admin, other, 2), Err(Error::NotFound));
    assert_eq!(token.get_nft(2), Err(Error::NotFound));
    assert_eq!(token.get_owner(u64::MAX), Err(Error::NotFound));
    assert_eq!(token.notifications.len(), 1);
}

#[test]
fn initializing_again_replaces_the_admin_and_restarts_the_counter() {
    let NFTTest { admin, other, mut token, .. } = setup();

    assert_eq!(token.mint(admin.clone(), String::from("first")), Ok(1));
    assert_eq!(token.mint(admin.clone(), String::from("second")), Ok(2));
    token.initialize(other.clone());
    assert_eq!(token.next_nft_id, 0);
    assert_eq!(token.mint(admin.clone(), String::from("third")), Err(Error::Unauthorized));
    assert_eq!(token.get_owner(2), Ok(admin));
    assert_eq!(token.mint(other.clone(), String::from("third")), Ok(1));
    assert_eq!(
        token.get_nft(1),
        Ok(NFT { id: 1, owner: other, metadata: String::from("third") })
    );
}

#[test]
fn a_mint_notifies_with_the_id_and_the_token() {
    let NFTTest { admin, mut token, .. } = setup();

    assert_eq!(token.mint(admin.clone(), String::from("uri")), Ok(1));
    let notifications = token.take_notifications();
    assert_eq!(notifications.len(), 1);
    assert_eq!(notifications[0].topic(), "mint");
    match &notifications[0] {
        Notification::Mint { id, nft } => {
            assert_eq!(*id, 1);
            assert_eq!(*nft, NFT { id: 1, owner: admin, metadata: String::from("uri") });
        }
        Notification::Transfer { .. } => panic!("a mint was expected"),
    }
    assert!(token.take_notifications().is_empty());
}

#[test]
fn a_transfer_notifies_with_the_id_and_both_parties() {
    let NFTTest { admin, other, mut token, .. } = setup();

    assert_eq!(token.mint(admin.clone(), String::from("uri")), Ok(1));
    assert_eq!(token.transfer(other.clone(), admin.clone(), 1), Err(Error::Unauthorized));
    assert_eq!(token.transfer(admin.clone(), other.clone(), 1), Ok(()));
    let notifications = token.take_notifications();
    assert_eq!(notifications.len(), 2);
    assert_eq!(notifications[0].topic(), "mint");
    assert_eq!(notifications[1].topic(), "transfer");
    match &notifications[1] {
        Notification::Transfer { id, from, to } => {
            assert_eq!(*id, 1);
            assert_eq!(*from, admin);
            assert_eq!(*to, other);
        }
        Notification::Mint { .. } => panic!("a transfer was expected"),
    }
    assert_eq!(token.get_owner(1), Ok(other));
}

#[test]
fn the_last_id_can_still_be_minted() {
    let NFTTest { admin, mut token, .. } = setup();

    token.next_nft_id = u64::MAX - 1;
    assert_eq!(token.mint(admin.clone(), String::from("last")), Ok(u64::MAX));
    assert_eq!(token.get_owner(u64::MAX), Ok(admin));
    assert_eq!(token.next_nft_id, u64::MAX);
}

#[test]
fn the_admin_may_mint_while_an_id_is_free() {
    let NFTTest { admin, other, mut token, .. } = setup();

    assert!(token.may_mint(&admin));
    assert!(!token.may_mint(&other));
    assert!(!NFTContract::new().may_mint(&admin));
    assert!(token.has_free_id());
    token.next_nft_id = u64::MAX;
    assert!(!token.has_free_id());
    assert_eq!(token.mint(other, String::from("uri")), Err(Error::Unauthorized));
    assert_eq!(token.next_nft_id, u64::MAX);
}

#[test]
fn a_stored_registry_holds_what_it_was_given() {
    let admin = Address::from_str("GADMIN");
    let owner = Address::from_str("GOWNER");
    let tokens = vec![
        NFT { id: 7, owner: admin.clone(), metadata: String::from("old") },
        NFT { id: 3, owner: owner.clone(), metadata: String::from("three") },
        NFT { id: 7, owner: owner.clone(), metadata: String::from("new") },
    ];
    let mut token = NFTContract::from_stored(Some(admin.clone()), Some(7), tokens);

    assert_eq!(token.nfts.len(), 2);
    assert_eq!(
        token.get_nft(7),
        Ok(NFT { id: 7, owner: owner.clone(), metadata: String::from("new") })
    );
    assert_eq!(token.get_owner(3), Ok(owner));
    assert!(token.take_notifications().is_empty());
    assert_eq!(token.mint(admin.clone(), String::from("uri")), Ok(8));

    let mut blank = NFTContract::from_stored(None, None, Vec::new());
    assert_eq!(blank.next_nft_id, 0);
    assert_eq!(blank.mint(admin, String::from("uri")), Err(Error::Unauthorized));
}
