use nusa_chain::contract::ContractEngine;
use nusa_chain::token::{ERC20Token, ERC721Token};

#[test]
fn erc20_transfers_move_balances() {
    let mut token = ERC20Token::new("Nusa".to_string(), "NUSA".to_string(), 1_000);
    let zero = "0x0000000000000000000000000000000000000000";
    assert_eq!(token.balance_of(zero), 1_000);
    token.transfer(zero, "alice", 400).unwrap();
    assert_eq!(token.balance_of(zero), 600);
    assert_eq!(token.balance_of("alice"), 400);
    let short = token.transfer("alice", "bob", 500);
    assert_eq!(short, Err("Insufficient balance".to_string()));
    assert_eq!(token.balance_of("alice"), 400);
    token.transfer("alice", "alice", 100).unwrap();
    assert_eq!(token.balance_of("alice"), 400);
    assert_eq!(token.total_supply, 1_000);
}

#[test]
fn erc721_tracks_owners() {
    let mut nft = ERC721Token::new("Art".to_string(), "ART".to_string());
    nft.mint(7, "alice".to_string()).unwrap();
    assert_eq!(nft.owner_of(7), Some("alice".to_string()));
    let dup = nft.mint(7, "bob".to_string());
    assert_eq!(dup, Err("Token already exists".to_string()));
    nft.transfer(7, "bob".to_string()).unwrap();
    assert_eq!(nft.owner_of(7), Some("bob".to_string()));
    let ghost_id = nft.transfer(9, "carol".to_string());
    assert_eq!(ghost_id, Err("Token doesn't exist".to_string()));
    assert_eq!(nft.owner_of(9), None);
}

#[test]
fn contract_engine_deploys_and_calls() {
    let mut engine = ContractEngine::new();
    let addr = engine.deploy(vec![0xde, 0xad]);
    assert_eq!(addr, "0xContract0");
    assert_eq!(engine.get_code(&addr), Some(vec![0xde, 0xad]));
    assert_eq!(engine.call(&addr, "run", vec![]), Ok(vec![1, 2, 3, 4]));
    assert_eq!(engine.call("0xContract9", "run", vec![]), Err("Contract not found".to_string()));
    assert_eq!(engine.get_code("0xContract9"), None);
}
