use erc1155_ledger::account::Account;
use erc1155_ledger::decimal::decimal_string;
use erc1155_ledger::quantity::U256;
use erc1155_ledger::token::ERC1155Token;

fn owner() -> Account {
    Account::new(0, 0xA11CE)
}

fn acct_a() -> Account {
    Account::new(0, 0xB0B)
}

fn u(n: u128) -> U256 {
    U256::from_u128(n)
}

fn fresh() -> ERC1155Token {
    let mut t = ERC1155Token::new();
    t.initialize(String::from("ipfs://base/"), owner()).unwrap();
    t
}

#[test]
fn balances_carry_across_the_limb_boundary() {
    let mut t = fresh();
    // Mint the largest low-limb quantity, then one more: the balance and
    // the supply cross into the high limb.
    t.mint(owner(), acct_a(), u(1), u(u128::MAX), Vec::new()).unwrap();
    t.mint(owner(), acct_a(), u(1), u(1), Vec::new()).unwrap();
    let crossed = U256 { lo: 0, hi: 1 };
    assert_eq!(t.balance_of(acct_a(), u(1)), Ok(crossed));
    assert_eq!(t.total_supply(u(1)), crossed);
    // Burning one borrows back across the boundary.
    t.burn(acct_a(), u(1), u(1)).unwrap();
    assert_eq!(t.balance_of(acct_a(), u(1)), Ok(u(u128::MAX)));
    assert_eq!(t.total_supply(u(1)), u(u128::MAX));
}

#[test]
fn comparison_spans_both_limbs() {
    let mut t = fresh();
    t.mint(owner(), acct_a(), u(1), U256 { lo: 0, hi: 1 }, Vec::new()).unwrap();
    // A debit needing more than the low limb holds still fits the balance.
    assert_eq!(t.burn(acct_a(), u(1), u(u128::MAX)), Ok(()));
    assert_eq!(t.balance_of(acct_a(), u(1)), Ok(u(1)));
}

#[test]
fn decimal_strings_are_exact() {
    assert_eq!(decimal_string(u(0)), String::from("0"));
    assert_eq!(decimal_string(u(7)), String::from("7"));
    assert_eq!(decimal_string(u(10)), String::from("10"));
    assert_eq!(decimal_string(u(123456789)), String::from("123456789"));
    assert_eq!(
        decimal_string(u(u128::MAX)),
        String::from("340282366920938463463374607431768211455")
    );
    assert_eq!(
        decimal_string(U256 { lo: 0, hi: 1 }),
        String::from("340282366920938463463374607431768211456")
    );
    assert_eq!(
        decimal_string(U256 { lo: u128::MAX, hi: u128::MAX }),
        String::from(
            "115792089237316195423570985008687907853269984665640564039457584007913129639935"
        )
    );
}

#[test]
fn uri_concatenates_base_id_and_suffix() {
    let t = fresh();
    assert_eq!(t.uri(u(0)), String::from("ipfs://base/0.json"));
    assert_eq!(t.uri(u(1)), String::from("ipfs://base/1.json"));
    assert_eq!(t.uri(u(4070)), String::from("ipfs://base/4070.json"));
    let big = U256 { lo: 0, hi: 1 };
    assert_eq!(
        t.uri(big),
        String::from("ipfs://base/340282366920938463463374607431768211456.json")
    );
}

#[test]
fn uri_with_empty_base() {
    let mut t = ERC1155Token::new();
    t.initialize(String::new(), owner()).unwrap();
    assert_eq!(t.uri(u(12)), String::from("12.json"));
}
