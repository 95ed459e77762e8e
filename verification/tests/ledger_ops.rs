use erc1155_ledger::account::Account;
use erc1155_ledger::error::Error;
use erc1155_ledger::event::Event;
use erc1155_ledger::quantity::U256;
use erc1155_ledger::token::ERC1155Token;

fn owner() -> Account {
    Account::new(0, 0xA11CE)
}

fn acct_a() -> Account {
    Account::new(0, 0xB0B)
}

fn acct_b() -> Account {
    Account::new(0, 0xCAB)
}

fn u(n: u128) -> U256 {
    U256::from_u128(n)
}

fn fresh() -> ERC1155Token {
    let mut t = ERC1155Token::new();
    t.initialize(String::from("ipfs://base/"), owner()).unwrap();
    t
}

#[test]
fn mint_transfer_burn_scenario() {
    let mut t = fresh();
    assert_eq!(t.mint(owner(), acct_a(), u(1), u(100), Vec::new()), Ok(()));
    assert_eq!(t.balance_of(acct_a(), u(1)), Ok(u(100)));
    assert_eq!(t.total_supply(u(1)), u(100));
    assert!(t.token_exists(u(1)));
    assert_eq!(
        t.safe_transfer_from(acct_a(), acct_a(), acct_b(), u(1), u(40), Vec::new()),
        Ok(())
    );
    assert_eq!(t.balance_of(acct_a(), u(1)), Ok(u(60)));
    assert_eq!(t.balance_of(acct_b(), u(1)), Ok(u(40)));
    assert_eq!(t.burn(acct_a(), u(1), u(60)), Ok(()));
    assert_eq!(t.balance_of(acct_a(), u(1)), Ok(u(0)));
    assert_eq!(t.total_supply(u(1)), u(40));
    assert!(t.token_exists(u(1)));
}

#[test]
fn batch_transfer_cumulative_shortfall_rolls_back() {
    let mut t = fresh();
    t.mint(owner(), acct_a(), u(1), u(60), Vec::new()).unwrap();
    let r = t.safe_batch_transfer_from(
        acct_a(),
        acct_a(),
        acct_b(),
        vec![u(1), u(1)],
        vec![u(70), u(40)],
        Vec::new(),
    );
    assert_eq!(
        r,
        Err(Error::InsufficientBalance {
            sender: acct_a(),
            balance: u(60),
            needed: u(70),
            token_id: u(1),
        })
    );
    assert_eq!(t.balance_of(acct_a(), u(1)), Ok(u(60)));
    assert_eq!(t.balance_of(acct_b(), u(1)), Ok(u(0)));
}

#[test]
fn batch_transfer_second_index_sees_cumulative_state() {
    let mut t = fresh();
    t.mint(owner(), acct_a(), u(1), u(100), Vec::new()).unwrap();
    // First index takes 70 of the 100; the second then sees only 30.
    let r = t.safe_batch_transfer_from(
        acct_a(),
        acct_a(),
        acct_b(),
        vec![u(1), u(1)],
        vec![u(70), u(40)],
        Vec::new(),
    );
    assert_eq!(
        r,
        Err(Error::InsufficientBalance {
            sender: acct_a(),
            balance: u(30),
            needed: u(40),
            token_id: u(1),
        })
    );
    // Full rollback: the first index's debit did not survive.
    assert_eq!(t.balance_of(acct_a(), u(1)), Ok(u(100)));
    assert_eq!(t.balance_of(acct_b(), u(1)), Ok(u(0)));
}

#[test]
fn batch_transfer_repeated_id_succeeds_cumulatively() {
    let mut t = fresh();
    t.mint(owner(), acct_a(), u(1), u(110), Vec::new()).unwrap();
    assert_eq!(
        t.safe_batch_transfer_from(
            acct_a(),
            acct_a(),
            acct_b(),
            vec![u(1), u(1)],
            vec![u(70), u(40)],
            Vec::new(),
        ),
        Ok(())
    );
    assert_eq!(t.balance_of(acct_a(), u(1)), Ok(u(0)));
    assert_eq!(t.balance_of(acct_b(), u(1)), Ok(u(110)));
}

#[test]
fn batch_rollback_preserves_earlier_indices_state() {
    let mut t = fresh();
    t.mint(owner(), acct_a(), u(1), u(50), Vec::new()).unwrap();
    // Index 0 would apply; index 1 (id 2, never minted) fails; nothing sticks.
    let r = t.safe_batch_transfer_from(
        acct_a(),
        acct_a(),
        acct_b(),
        vec![u(1), u(2)],
        vec![u(10), u(5)],
        Vec::new(),
    );
    assert_eq!(
        r,
        Err(Error::InsufficientBalance {
            sender: acct_a(),
            balance: u(0),
            needed: u(5),
            token_id: u(2),
        })
    );
    assert_eq!(t.balance_of(acct_a(), u(1)), Ok(u(50)));
    assert_eq!(t.balance_of(acct_b(), u(1)), Ok(u(0)));
    assert_eq!(t.total_supply(u(1)), u(50));
}

#[test]
fn transfer_to_self_leaves_balance_unchanged() {
    let mut t = fresh();
    t.mint(owner(), acct_a(), u(1), u(25), Vec::new()).unwrap();
    assert_eq!(
        t.safe_transfer_from(acct_a(), acct_a(), acct_a(), u(1), u(25), Vec::new()),
        Ok(())
    );
    assert_eq!(t.balance_of(acct_a(), u(1)), Ok(u(25)));
}

#[test]
fn transfer_requires_authorization() {
    let mut t = fresh();
    t.mint(owner(), acct_a(), u(1), u(10), Vec::new()).unwrap();
    assert_eq!(
        t.safe_transfer_from(acct_b(), acct_a(), acct_b(), u(1), u(5), Vec::new()),
        Err(Error::MissingApprovalForAll { operator: acct_b(), owner: acct_a() })
    );
    // Approval makes the same call pass.
    t.set_approval_for_all(acct_a(), acct_b(), true).unwrap();
    assert_eq!(
        t.safe_transfer_from(acct_b(), acct_a(), acct_b(), u(1), u(5), Vec::new()),
        Ok(())
    );
    assert_eq!(t.balance_of(acct_b(), u(1)), Ok(u(5)));
}

#[test]
fn transfer_rejects_null_receiver() {
    let mut t = fresh();
    t.mint(owner(), acct_a(), u(1), u(10), Vec::new()).unwrap();
    assert_eq!(
        t.safe_transfer_from(acct_a(), acct_a(), Account::null(), u(1), u(5), Vec::new()),
        Err(Error::InvalidReceiver { receiver: Account::null() })
    );
}

#[test]
fn transfer_insufficient_balance_fails_atomically() {
    let mut t = fresh();
    t.mint(owner(), acct_a(), u(1), u(10), Vec::new()).unwrap();
    assert_eq!(
        t.safe_transfer_from(acct_a(), acct_a(), acct_b(), u(1), u(11), Vec::new()),
        Err(Error::InsufficientBalance {
            sender: acct_a(),
            balance: u(10),
            needed: u(11),
            token_id: u(1),
        })
    );
    assert_eq!(t.balance_of(acct_a(), u(1)), Ok(u(10)));
    assert_eq!(t.balance_of(acct_b(), u(1)), Ok(u(0)));
}

#[test]
fn mint_requires_owner() {
    let mut t = fresh();
    assert_eq!(
        t.mint(acct_a(), acct_a(), u(1), u(10), Vec::new()),
        Err(Error::UnauthorizedAccount { account: acct_a() })
    );
}

#[test]
fn mint_rejects_null_receiver() {
    let mut t = fresh();
    assert_eq!(
        t.mint(owner(), Account::null(), u(1), u(10), Vec::new()),
        Err(Error::InvalidReceiver { receiver: Account::null() })
    );
}

#[test]
fn mint_new_allocates_sequential_ids() {
    let mut t = fresh();
    assert_eq!(t.mint_new(owner(), acct_a(), u(7)), Ok(u(1)));
    assert_eq!(t.mint_new(owner(), acct_b(), u(9)), Ok(u(2)));
    assert_eq!(t.balance_of(acct_a(), u(1)), Ok(u(7)));
    assert_eq!(t.balance_of(acct_b(), u(2)), Ok(u(9)));
    assert!(t.token_exists(u(1)));
    assert!(t.token_exists(u(2)));
    assert!(!t.token_exists(u(3)));
    assert_eq!(t.next_token_id, u(3));
}

#[test]
fn mint_batch_mints_each_pair() {
    let mut t = fresh();
    assert_eq!(
        t.mint_batch(owner(), acct_a(), vec![u(1), u(2), u(1)], vec![u(5), u(6), u(7)], Vec::new()),
        Ok(())
    );
    assert_eq!(t.balance_of(acct_a(), u(1)), Ok(u(12)));
    assert_eq!(t.balance_of(acct_a(), u(2)), Ok(u(6)));
    assert_eq!(t.total_supply(u(1)), u(12));
    assert_eq!(t.total_supply(u(2)), u(6));
    assert!(t.token_exists(u(1)) && t.token_exists(u(2)));
}

#[test]
fn mint_batch_length_mismatch() {
    let mut t = fresh();
    assert_eq!(
        t.mint_batch(owner(), acct_a(), vec![u(1), u(2)], vec![u(5)], Vec::new()),
        Err(Error::InvalidArrayLength { ids_length: 2, values_length: 1 })
    );
}

#[test]
fn burn_batch_cumulative_and_rollback() {
    let mut t = fresh();
    t.mint(owner(), acct_a(), u(1), u(60), Vec::new()).unwrap();
    // Cumulative duplicate burns that fit succeed.
    assert_eq!(t.burn_batch(acct_a(), vec![u(1), u(1)], vec![u(30), u(30)]), Ok(()));
    assert_eq!(t.balance_of(acct_a(), u(1)), Ok(u(0)));
    assert_eq!(t.total_supply(u(1)), u(0));
    // A failing batch rolls everything back.
    t.mint(owner(), acct_a(), u(1), u(60), Vec::new()).unwrap();
    assert_eq!(
        t.burn_batch(acct_a(), vec![u(1), u(1)], vec![u(30), u(31)]),
        Err(Error::InsufficientBalance {
            sender: acct_a(),
            balance: u(30),
            needed: u(31),
            token_id: u(1),
        })
    );
    assert_eq!(t.balance_of(acct_a(), u(1)), Ok(u(60)));
    assert_eq!(t.total_supply(u(1)), u(60));
}

#[test]
fn burn_from_requires_authorization() {
    let mut t = fresh();
    t.mint(owner(), acct_a(), u(1), u(10), Vec::new()).unwrap();
    assert_eq!(
        t.burn_from(acct_b(), acct_a(), u(1), u(4)),
        Err(Error::MissingApprovalForAll { operator: acct_b(), owner: acct_a() })
    );
    t.set_approval_for_all(acct_a(), acct_b(), true).unwrap();
    assert_eq!(t.burn_from(acct_b(), acct_a(), u(1), u(4)), Ok(()));
    assert_eq!(t.balance_of(acct_a(), u(1)), Ok(u(6)));
    assert_eq!(t.total_supply(u(1)), u(6));
}

#[test]
fn existence_survives_burning_whole_supply() {
    let mut t = fresh();
    t.mint(owner(), acct_a(), u(9), u(5), Vec::new()).unwrap();
    assert!(t.token_exists(u(9)));
    t.burn(acct_a(), u(9), u(5)).unwrap();
    assert_eq!(t.total_supply(u(9)), u(0));
    assert_eq!(t.balance_of(acct_a(), u(9)), Ok(u(0)));
    assert!(t.token_exists(u(9)));
}

#[test]
fn conservation_across_operations() {
    let mut t = fresh();
    t.mint(owner(), acct_a(), u(1), u(100), Vec::new()).unwrap();
    t.safe_transfer_from(acct_a(), acct_a(), acct_b(), u(1), u(33), Vec::new())
        .unwrap();
    t.burn(acct_b(), u(1), u(3)).unwrap();
    let a = t.balance_of(acct_a(), u(1)).unwrap();
    let b = t.balance_of(acct_b(), u(1)).unwrap();
    assert_eq!(a, u(67));
    assert_eq!(b, u(30));
    assert_eq!(t.total_supply(u(1)), u(97));
}

#[test]
fn balance_of_rejects_null_account() {
    let t = fresh();
    assert_eq!(
        t.balance_of(Account::null(), u(1)),
        Err(Error::InvalidSender { sender: Account::null() })
    );
}

#[test]
fn balance_of_batch_lookups_and_errors() {
    let mut t = fresh();
    t.mint(owner(), acct_a(), u(1), u(10), Vec::new()).unwrap();
    t.mint(owner(), acct_b(), u(2), u(20), Vec::new()).unwrap();
    assert_eq!(
        t.balance_of_batch(vec![acct_a(), acct_b(), acct_a()], vec![u(1), u(2), u(2)]),
        Ok(vec![u(10), u(20), u(0)])
    );
    // Length mismatch reports both lengths, ids first.
    assert_eq!(
        t.balance_of_batch(vec![acct_a(), acct_b()], vec![u(1)]),
        Err(Error::InvalidArrayLength { ids_length: 1, values_length: 2 })
    );
    assert_eq!(
        t.balance_of_batch(vec![acct_a(), Account::null()], vec![u(1), u(2)]),
        Err(Error::InvalidSender { sender: Account::null() })
    );
}

#[test]
fn events_record_each_successful_operation() {
    let mut t = fresh();
    assert_eq!(
        t.events.last(),
        Some(&Event::OwnershipTransferred {
            previous_owner: Account::null(),
            new_owner: owner(),
        })
    );
    t.mint(owner(), acct_a(), u(1), u(100), Vec::new()).unwrap();
    assert_eq!(
        t.events.last(),
        Some(&Event::TransferSingle {
            operator: owner(),
            from: Account::null(),
            to: acct_a(),
            id: u(1),
            value: u(100),
        })
    );
    let before = t.events.len();
    // A failing call appends nothing.
    let _ = t.burn(acct_a(), u(1), u(200));
    assert_eq!(t.events.len(), before);
    t.safe_batch_transfer_from(
        acct_a(),
        acct_a(),
        acct_b(),
        vec![u(1)],
        vec![u(4)],
        Vec::new(),
    )
    .unwrap();
    assert_eq!(
        t.events.last(),
        Some(&Event::TransferBatch {
            operator: acct_a(),
            from: acct_a(),
            to: acct_b(),
            ids: vec![u(1)],
            values: vec![u(4)],
        })
    );
}

#[test]
fn batch_transfer_to_self_each_step_sees_restored_balance() {
    let mut t = fresh();
    t.mint(owner(), acct_a(), u(1), u(60), Vec::new()).unwrap();
    // Each index debits and credits the same account, so every index sees
    // the full balance again; the batch succeeds and changes nothing.
    assert_eq!(
        t.safe_batch_transfer_from(
            acct_a(),
            acct_a(),
            acct_a(),
            vec![u(1), u(1)],
            vec![u(60), u(60)],
            Vec::new(),
        ),
        Ok(())
    );
    assert_eq!(t.balance_of(acct_a(), u(1)), Ok(u(60)));
    // But a single index asking more than the balance still fails.
    assert_eq!(
        t.safe_batch_transfer_from(
            acct_a(),
            acct_a(),
            acct_a(),
            vec![u(1)],
            vec![u(61)],
            Vec::new(),
        ),
        Err(Error::InsufficientBalance {
            sender: acct_a(),
            balance: u(60),
            needed: u(61),
            token_id: u(1),
        })
    );
}

#[test]
fn batch_transfer_length_mismatch() {
    let mut t = fresh();
    assert_eq!(
        t.safe_batch_transfer_from(
            acct_a(),
            acct_a(),
            acct_b(),
            vec![u(1), u(2)],
            vec![u(1)],
            Vec::new(),
        ),
        Err(Error::InvalidArrayLength { ids_length: 2, values_length: 1 })
    );
    assert_eq!(
        t.burn_batch(acct_a(), vec![u(1)], vec![u(1), u(2)]),
        Err(Error::InvalidArrayLength { ids_length: 1, values_length: 2 })
    );
}

#[test]
fn batch_transfer_rejects_null_sender() {
    let mut t = fresh();
    assert_eq!(
        t.safe_batch_transfer_from(
            Account::null(),
            Account::null(),
            acct_b(),
            vec![u(1)],
            vec![u(0)],
            Vec::new(),
        ),
        Err(Error::InvalidSender { sender: Account::null() })
    );
}
