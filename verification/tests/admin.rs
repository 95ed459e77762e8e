use erc1155_ledger::account::Account;
use erc1155_ledger::error::Error;
use erc1155_ledger::event::Event;
use erc1155_ledger::quantity::U256;
use erc1155_ledger::token::ERC1155Token;

fn owner() -> Account {
    Account::new(0, 0xA11CE)
}

fn acct_a() -> Account {
    Account::new(0, 0xB0B)
}

fn acct_b() -> Account {
    Account::new(0, 0xCAB)
}

fn u(n: u128) -> U256 {
    U256::from_u128(n)
}

fn fresh() -> ERC1155Token {
    let mut t = ERC1155Token::new();
    t.initialize(String::from("ipfs://base/"), owner()).unwrap();
    t
}

#[test]
fn initialize_once_only() {
    let mut t = ERC1155Token::new();
    assert!(!t.initialized);
    assert_eq!(t.initialize(String::from("u://"), owner()), Ok(()));
    assert!(t.initialized);
    assert_eq!(t.owner(), owner());
    assert!(!t.is_paused());
    assert_eq!(t.next_token_id, u(1));
    assert_eq!(
        t.initialize(String::from("v://"), acct_a()),
        Err(Error::AlreadyInitialized)
    );
    assert_eq!(t.owner(), owner());
}

#[test]
fn approval_round_trip_and_self_approval() {
    let mut t = fresh();
    assert!(!t.is_approved_for_all(acct_a(), acct_b()));
    assert_eq!(t.set_approval_for_all(acct_a(), acct_b(), true), Ok(()));
    assert!(t.is_approved_for_all(acct_a(), acct_b()));
    // Approval is directional.
    assert!(!t.is_approved_for_all(acct_b(), acct_a()));
    assert_eq!(
        t.events.last(),
        Some(&Event::ApprovalForAll { account: acct_a(), operator: acct_b(), approved: true })
    );
    // Revoking returns it to false.
    assert_eq!(t.set_approval_for_all(acct_a(), acct_b(), false), Ok(()));
    assert!(!t.is_approved_for_all(acct_a(), acct_b()));
    // Self-approval always fails, whatever the prior state.
    assert_eq!(
        t.set_approval_for_all(acct_a(), acct_a(), true),
        Err(Error::SelfApproval { operator: acct_a() })
    );
    assert_eq!(
        t.set_approval_for_all(acct_a(), acct_a(), false),
        Err(Error::SelfApproval { operator: acct_a() })
    );
    // The null account is rejected as an operator.
    assert_eq!(
        t.set_approval_for_all(acct_a(), Account::null(), true),
        Err(Error::InvalidOperator { operator: Account::null() })
    );
}

#[test]
fn pause_gates_mutations_but_not_reads() {
    let mut t = fresh();
    t.mint(owner(), acct_a(), u(1), u(50), Vec::new()).unwrap();
    assert_eq!(t.pause(owner()), Ok(()));
    assert!(t.is_paused());
    assert_eq!(t.events.last(), Some(&Event::Paused { account: owner() }));
    // Every ledger mutation is rejected with the pause error.
    assert_eq!(
        t.mint(owner(), acct_a(), u(1), u(1), Vec::new()),
        Err(Error::EnforcedPause)
    );
    assert_eq!(
        t.mint_batch(owner(), acct_a(), vec![u(1)], vec![u(1)], Vec::new()),
        Err(Error::EnforcedPause)
    );
    assert_eq!(t.mint_new(owner(), acct_a(), u(1)), Err(Error::EnforcedPause));
    assert_eq!(t.burn(acct_a(), u(1), u(1)), Err(Error::EnforcedPause));
    assert_eq!(t.burn_from(acct_b(), acct_a(), u(1), u(1)), Err(Error::EnforcedPause));
    assert_eq!(
        t.burn_batch(acct_a(), vec![u(1)], vec![u(1)]),
        Err(Error::EnforcedPause)
    );
    assert_eq!(
        t.safe_transfer_from(acct_a(), acct_a(), acct_b(), u(1), u(1), Vec::new()),
        Err(Error::EnforcedPause)
    );
    assert_eq!(
        t.safe_batch_transfer_from(acct_a(), acct_a(), acct_b(), vec![u(1)], vec![u(1)], Vec::new()),
        Err(Error::EnforcedPause)
    );
    // Reads and management stay callable.
    assert_eq!(t.balance_of(acct_a(), u(1)), Ok(u(50)));
    assert_eq!(t.total_supply(u(1)), u(50));
    assert_eq!(t.owner(), owner());
    assert_eq!(t.unpause(owner()), Ok(()));
    assert!(!t.is_paused());
    assert_eq!(t.events.last(), Some(&Event::Unpaused { account: owner() }));
    assert_eq!(t.mint(owner(), acct_a(), u(1), u(1), Vec::new()), Ok(()));
}

#[test]
fn pause_state_machine_guards() {
    let mut t = fresh();
    assert_eq!(t.unpause(owner()), Err(Error::ExpectedPause));
    assert_eq!(t.pause(acct_a()), Err(Error::UnauthorizedAccount { account: acct_a() }));
    t.pause(owner()).unwrap();
    assert_eq!(t.pause(owner()), Err(Error::EnforcedPause));
    assert_eq!(t.unpause(acct_a()), Err(Error::UnauthorizedAccount { account: acct_a() }));
}

#[test]
fn ownership_transfer_and_renounce() {
    let mut t = fresh();
    assert_eq!(
        t.transfer_ownership(acct_a(), acct_a()),
        Err(Error::UnauthorizedAccount { account: acct_a() })
    );
    assert_eq!(
        t.transfer_ownership(owner(), Account::null()),
        Err(Error::InvalidNewOwner { new_owner: Account::null() })
    );
    assert_eq!(t.transfer_ownership(owner(), acct_a()), Ok(()));
    assert_eq!(t.owner(), acct_a());
    assert_eq!(
        t.events.last(),
        Some(&Event::OwnershipTransferred { previous_owner: owner(), new_owner: acct_a() })
    );
    // The old owner lost its powers, the new one has them.
    assert_eq!(
        t.mint(owner(), acct_b(), u(1), u(1), Vec::new()),
        Err(Error::UnauthorizedAccount { account: owner() })
    );
    assert_eq!(t.mint(acct_a(), acct_b(), u(1), u(1), Vec::new()), Ok(()));
    // Renouncing is terminal: owner-gated operations stay disabled.
    assert_eq!(t.renounce_ownership(acct_a()), Ok(()));
    assert_eq!(t.owner(), Account::null());
    assert_eq!(
        t.mint(acct_a(), acct_b(), u(1), u(1), Vec::new()),
        Err(Error::UnauthorizedAccount { account: acct_a() })
    );
}

#[test]
fn set_uri_replaces_template_and_logs() {
    let mut t = fresh();
    assert_eq!(
        t.set_uri(acct_a(), String::from("x://")),
        Err(Error::UnauthorizedAccount { account: acct_a() })
    );
    assert_eq!(t.set_uri(owner(), String::from("https://meta/")), Ok(()));
    assert_eq!(t.uri(u(3)), String::from("https://meta/3.json"));
    assert_eq!(
        t.events.last(),
        Some(&Event::Uri { value: String::from("https://meta/"), id: u(0) })
    );
}

#[test]
fn supports_interface_answers_three_ids() {
    let t = fresh();
    assert!(t.supports_interface([0x01, 0xff, 0xc9, 0xa7]));
    assert!(t.supports_interface([0xd9, 0xb6, 0x7a, 0x26]));
    assert!(t.supports_interface([0x0e, 0x89, 0x34, 0x1c]));
    assert!(!t.supports_interface([0x00, 0x00, 0x00, 0x00]));
    assert!(!t.supports_interface([0x01, 0xff, 0xc9, 0xa8]));
    assert!(!t.supports_interface([0xff, 0xff, 0xff, 0xff]));
}
