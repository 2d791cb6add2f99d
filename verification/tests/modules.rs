use nusa_chain::aes::AES256;
use nusa_chain::benchmark::Benchmark;
use nusa_chain::bridge::{Chain, UniversalBridge};
use nusa_chain::dex::LiquidityPool;
use nusa_chain::governance::Governance;
use nusa_chain::marketplace::NFTMarketplace;
use nusa_chain::privacy::PrivacyLayer;
use nusa_chain::private_contracts::PrivateContractVM;
use nusa_chain::rollups::{RollupManager, RollupTransaction, RollupType};
use nusa_chain::text::{hex_lower, i64_to_string, u64_to_string};
use nusa_chain::token::ERC20Token;
use nusa_chain::upgrade::UpgradeManager;
use nusa_chain::wasm::WasmVM;
use nusa_chain::zkvm::{ProofType, ZkVM};

#[test]
fn test_calculate_fee() {
    let bridge = UniversalBridge::new();
    let fee = bridge.calculate_fee(10000, Chain::Ethereum, Chain::NUSA);

    assert!(fee > 0);
}

#[test]
fn test_bridge_eth_to_nusa() {
    let mut bridge = UniversalBridge::new();

    // Lock ETH
    bridge.lock_assets("tx123", Chain::Ethereum, 1000).unwrap();

    // Mint wrapped on NUSA
    let wrapped = bridge.mint_wrapped("tx123", Chain::NUSA, "nusa1abc", 1000).unwrap();

    assert!(wrapped.contains("wNUSA"));
}

#[test]
fn bridge_fee_formula_is_exact() {
    let bridge = UniversalBridge::new();
    // Ethereum involved: 1000 * 3 + 10000 / 1000 = 3010.
    assert_eq!(bridge.calculate_fee(10000, Chain::Ethereum, Chain::NUSA), 3010);
    // Bitcoin involved: 1000 * 2 + 0 = 2000.
    assert_eq!(bridge.calculate_fee(500, Chain::NUSA, Chain::Bitcoin), 2000);
    // Neither: 1000 * 1 + 2 = 1002.
    assert_eq!(bridge.calculate_fee(2000, Chain::Solana, Chain::NUSA), 1002);
}

#[test]
fn bridge_mint_needs_a_lock() {
    let bridge = UniversalBridge::new();
    let err = bridge.mint_wrapped("ghost", Chain::NUSA, "addr", 1);
    assert_eq!(err, Err("No locked assets found".to_string()));
}

#[test]
fn test_aes256() {
    let aes = AES256::new("super_secret_password");
    let plaintext = b"Hello, NUSA Chain!";

    let encrypted = aes.encrypt(plaintext);
    let decrypted = aes.decrypt(&encrypted);

    assert_eq!(plaintext, &decrypted[..]);
}

#[test]
fn test_wasm_vm() {
    let mut vm = WasmVM::new(1_000_000);
    let contract_id = vm.deploy_contract(vec![0x00, 0x61, 0x73, 0x6d]);
    assert_eq!(vm.get_contract_count(), 1);

    let result = vm.execute(&contract_id, "test", vec![]);
    assert!(result.is_ok());
}

#[test]
fn wasm_ids_are_sequential() {
    let mut vm = WasmVM::new(1_000_000);
    assert_eq!(vm.deploy_contract(vec![1]), "wasm_0");
    assert_eq!(vm.deploy_contract(vec![2]), "wasm_1");
    let missing = vm.execute("wasm_9", "m", vec![]);
    assert_eq!(missing, Err("Contract not found".to_string()));
}

#[test]
fn test_zkvm_execution() {
    let mut zkvm = ZkVM::new(ProofType::SNARK);

    // Simple bytecode: ADD two numbers
    let bytecode = vec![0x01, 0xFF]; // ADD, HALT

    let result = zkvm.execute_with_proof(&bytecode, vec![5, 10]);
    assert!(result.is_ok());

    let proof = result.unwrap();
    assert_eq!(proof.public_inputs[0], 15);
}

#[test]
fn test_proof_verification() {
    let mut zkvm = ZkVM::new(ProofType::SNARK);

    let bytecode = vec![0x02, 0xFF]; // MUL, HALT
    let proof = zkvm.execute_with_proof(&bytecode, vec![3, 7]).unwrap();

    let valid = zkvm.verify_proof(&proof, &[21]);
    assert!(valid);
}

#[test]
fn zkvm_subtraction_saturates_and_store_loads_back() {
    let mut zkvm = ZkVM::new(ProofType::Groth16);
    // SUB pops 10 then 5; 5 - 10 saturates to 0.
    let proof = zkvm.execute_with_proof(&[0x03, 0xFF], vec![5, 10]).unwrap();
    assert_eq!(proof.public_inputs[0], 0);
    // STORE key 42 := 99, then LOAD key 42.
    let result = zkvm.execute(&[0x11, 0x10, 0xFF], &[42, 42, 99]);
    assert_eq!(result, Ok(99));
    // Underflow is reported, not silently skipped.
    let err = zkvm.execute(&[0x01, 0xFF], &[1]);
    assert_eq!(err, Err("Stack underflow".to_string()));
}

#[test]
fn governance_votes_carry_proposals() {
    let mut gov = Governance::new();
    let id = gov.create_proposal("title".to_string(), "desc".to_string());
    assert_eq!(id, 1);
    gov.vote(id, true, 10).unwrap();
    gov.vote(id, false, 4).unwrap();
    assert!(gov.execute_proposal(id).is_ok());
    let p = gov.get_proposal(id).unwrap();
    assert_eq!(p.votes_for, 10);
    assert_eq!(p.votes_against, 4);
    let missing = gov.vote(99, true, 1);
    assert_eq!(missing, Err("Proposal not found".to_string()));
    let id2 = gov.create_proposal("t2".to_string(), "d2".to_string());
    gov.vote(id2, false, 1).unwrap();
    let not_passed = gov.execute_proposal(id2);
    assert_eq!(not_passed, Err("Proposal not passed".to_string()));
}

#[test]
fn upgrades_are_staged_then_executed() {
    let mut mgr = UpgradeManager::new("1.0.0".to_string());
    assert_eq!(mgr.current_version(), "1.0.0");
    assert_eq!(mgr.execute_upgrade(), Err("No pending upgrade".to_string()));
    mgr.propose_upgrade("2.0.0".to_string());
    assert_eq!(mgr.execute_upgrade(), Ok("2.0.0".to_string()));
    assert_eq!(mgr.current_version(), "2.0.0");
}

#[test]
fn benchmark_figures() {
    let b = Benchmark::new();
    assert_eq!(b.theoretical_tps(), 50_000);
    assert_eq!(b.block_time_ms(), 500);
}

#[test]
fn dex_first_deposit_mints_geometric_mean() {
    let mut pool = LiquidityPool::new("A".to_string(), "B".to_string());
    let shares = pool.add_liquidity(4, 9);
    assert_eq!(shares, 6);
    assert_eq!(pool.reserve_a, 4);
    assert_eq!(pool.reserve_b, 9);
    assert_eq!(pool.total_shares, 6);
}

#[test]
fn dex_swap_follows_constant_product() {
    let mut pool = LiquidityPool::new("A".to_string(), "B".to_string());
    pool.add_liquidity(1000, 1000);
    let out = pool.swap("A".to_string(), 100);
    // Fee-discounted input: 100 * 9970 / 10000 = 99; out = 1000*99/1099 = 90.
    assert_eq!(out, 90);
    assert_eq!(pool.reserve_a, 1100);
    assert_eq!(pool.reserve_b, 910);
}

#[test]
fn privacy_commitments_are_deterministic() {
    let mut layer = PrivacyLayer::new();
    let tx = layer.create_private_tx(100, "bob".to_string());
    assert_eq!(tx.commitment, "commit_100_bob");
    assert_eq!(tx.nullifier, "null_commit_100_bob");
    assert_eq!(tx.encrypted_amount, 100u64.to_be_bytes().to_vec());
    assert_eq!(tx.proof.public_inputs, vec![100]);
    assert!(layer.verify_proof(&tx));
}

#[test]
fn private_contracts_round_trip() {
    let mut vm = PrivateContractVM::new();
    let addr = vm
        .deploy_private_contract(vec![1, 2, 3], "owner".to_string(), vec!["friend".to_string()])
        .unwrap();
    assert_eq!(addr, "private_contract_1");
    let key = vm.key_manager.get_key(&addr).unwrap();
    assert_eq!(key.len(), 32);
    let secret = b"attack at dawn".to_vec();
    let sealed = vm.encrypt_data(&secret, &key);
    assert_ne!(sealed, secret);
    let opened = vm.decrypt_data(&sealed, &key).unwrap();
    assert_eq!(opened, secret);
    vm.write_private_state(&addr, "k".to_string(), secret.clone(), "friend").unwrap();
    let read = vm.read_private_state(&addr, "k", &key).unwrap();
    assert_eq!(read, secret);
    let denied = vm.write_private_state(&addr, "k".to_string(), secret, "stranger");
    assert_eq!(denied, Err("Write access denied".to_string()));
    assert_eq!(
        vm.get_stats(),
        "Private Contract VM Stats:\nTotal Private Contracts: 1\nEncrypted State Entries: 0\nExecution Proofs: 0\nManaged Keys: 1"
    );
}

#[test]
fn rollups_batch_lifecycle() {
    let mut mgr = RollupManager::new();
    let id = mgr.deploy_rollup("app".to_string(), RollupType::ZkRollup, "op".to_string());
    assert_eq!(id, "rollup_1");
    mgr.submit_transaction(
        &id,
        RollupTransaction {
            tx_hash: "h".to_string(),
            from: "a".to_string(),
            to: "b".to_string(),
            value: 1,
            data: vec![],
            batch_id: 0,
        },
    )
    .unwrap();
    let batch = mgr.create_batch(&id, vec!["h".to_string()], "root2".to_string()).unwrap();
    assert_eq!(batch, 1);
    let rejected = mgr.submit_validity_proof(&id, batch, vec![]);
    assert_eq!(rejected, Err("Invalid validity proof".to_string()));
    mgr.submit_validity_proof(&id, batch, vec![7]).unwrap();
    let again = mgr.finalize_batch(&id, batch);
    assert_eq!(again, Err("Already finalized".to_string()));
    let stats = mgr.get_stats();
    assert!(stats.contains("Total Rollups: 1"));
    assert!(stats.contains("Total Batches: 1"));
    let fraud = mgr.submit_fraud_proof(&id, batch, vec![1]);
    assert_eq!(fraud, Err("Not an optimistic rollup".to_string()));
}

#[test]
fn decimal_and_hex_renderings() {
    assert_eq!(u64_to_string(0), "0");
    assert_eq!(u64_to_string(12345), "12345");
    assert_eq!(u64_to_string(u64::MAX), "18446744073709551615");
    assert_eq!(i64_to_string(-42), "-42");
    assert_eq!(i64_to_string(7), "7");
    assert_eq!(i64_to_string(i64::MIN), "-9223372036854775808");
    assert_eq!(hex_lower(&[0xab, 0x01, 0xff]), "ab01ff");
    assert_eq!(hex_lower(&[]), "");
}

#[test]
fn digest_rendering_is_a_real_digest() {
    // Were the digest just its input handed back, the empty input would
    // give an empty string rather than 64 hex characters.
    let h = nusa_chain::hashing::sha256_hex(&[]);
    assert_eq!(h.len(), 64);
    assert!(h.chars().all(|c| c.is_ascii_hexdigit()));
    let h2 = nusa_chain::hashing::sha256_hex(&[]);
    assert_eq!(h, h2);
}

#[test]
fn auctions_pass_tokens_to_the_highest_bidder() {
    let mut market = NFTMarketplace::new();
    let col = market.create_collection("art".to_string(), "carol".to_string());
    assert_eq!(col, "col_1");
    let token = market.mint_nft(col.clone(), "piece".to_string(), "alice".to_string());
    assert_eq!(token, "nft_col_1_1");
    assert_eq!(market.collections[0].total_items, 1);
    // Only the recorded owner can open the auction.
    assert!(!market.create_auction(token.clone(), "mallory".to_string(), 100, 999));
    assert!(market.create_auction(token.clone(), "alice".to_string(), 100, 999));
    // Bids must beat the standing one.
    assert!(!market.place_bid(token.clone(), "bob".to_string(), 100));
    assert!(market.place_bid(token.clone(), "bob".to_string(), 150));
    assert!(market.place_bid(token.clone(), "carol".to_string(), 200));
    assert!(market.end_auction(token.clone()));
    assert_eq!(market.owners[0].1, "carol");
    assert!(!market.auctions[0].active);
    // A closed auction takes no further bids.
    assert!(!market.place_bid(token.clone(), "dave".to_string(), 300));
    let trending = market.get_trending();
    assert_eq!(trending, vec!["nft_col_1_1".to_string()]);
}

#[test]
fn auction_without_bids_returns_nothing() {
    let mut market = NFTMarketplace::new();
    let token = market.mint_nft("c".to_string(), "n".to_string(), "alice".to_string());
    assert!(market.create_auction(token.clone(), "alice".to_string(), 50, 10));
    assert!(!market.end_auction(token.clone()));
    assert_eq!(market.owners[0].1, "alice");
    assert!(!market.auctions[0].active);
}

#[test]
fn erc20_getters_read_the_token() {
    let token = ERC20Token::new("Nusa".to_string(), "NUSA".to_string(), 7);
    assert_eq!(token.name(), "Nusa");
    assert_eq!(token.symbol(), "NUSA");
    assert_eq!(token.total_supply(), 7);
}
