use ic_stable_structures::DefaultMemoryImpl;
use ic_swipe::{whoami, Identity, Swipe, UserData};

fn fresh() -> Swipe {
    Swipe::init(DefaultMemoryImpl::default()).expect("empty memory opens")
}

fn user(bytes: &[u8]) -> Identity {
    Identity::from_bytes(bytes.to_vec()).expect("short enough")
}

#[test]
fn fresh_identity_has_zero_balance() {
    let s = fresh();
    let alice = user(&[1, 2, 3]);
    assert_eq!(s.get_user_icp_balance(&alice), 0);
    assert_eq!(s.get_default_swap_amount(&alice), 0);
    assert_eq!(s.get_token_balance(&alice, "XTK".to_string()), 0);
    assert_eq!(s.get_all_users_count(), 0);
}

#[test]
fn deposit_sets_balance() {
    let mut s = fresh();
    let alice = user(&[1, 2, 3]);
    let r = s.deposit_icp(&alice, 100);
    assert!(r.success);
    assert_eq!(r.new_icp_balance, 100);
    assert_eq!(r.new_token_balance, None);
    assert_eq!(r.message, "Successfully deposited 100 ICP");
    assert_eq!(s.get_user_icp_balance(&alice), 100);
    let p = s.get_user_portfolio(&alice);
    assert_eq!(p.total_deposits, 100);
    assert_eq!(p.total_swaps, 0);
}

#[test]
fn deposit_then_swap_into_tokens() {
    let mut s = fresh();
    let alice = user(&[1, 2, 3]);
    s.deposit_icp(&alice, 50);
    let r = s.swap_icp_to_token(&alice, "XTK".to_string(), 30);
    assert!(r.success);
    assert_eq!(r.new_icp_balance, 20);
    assert_eq!(r.new_token_balance, Some(30));
    assert_eq!(r.message, "Successfully swapped 30 ICP to 30 XTK tokens");
    assert_eq!(s.get_token_balance(&alice, "XTK".to_string()), 30);
    assert_eq!(s.get_user_icp_balance(&alice), 20);
    let p = s.get_user_portfolio(&alice);
    assert_eq!(p.total_swaps, 30);
    assert_eq!(p.token_balances, vec![("XTK".to_string(), 30)]);
}

#[test]
fn swap_beyond_icp_balance_is_refused() {
    let mut s = fresh();
    let alice = user(&[1, 2, 3]);
    s.deposit_icp(&alice, 20);
    let r = s.swap_icp_to_token(&alice, "XTK".to_string(), 50);
    assert!(!r.success);
    assert_eq!(r.message, "Insufficient ICP balance. Available: 20, Required: 50");
    assert_eq!(r.new_icp_balance, 20);
    assert_eq!(r.new_token_balance, None);
    assert_eq!(s.get_user_icp_balance(&alice), 20);
    assert_eq!(s.get_token_balance(&alice, "XTK".to_string()), 0);
}

#[test]
fn swapping_all_tokens_back_removes_the_entry() {
    let mut s = fresh();
    let alice = user(&[1, 2, 3]);
    s.deposit_icp(&alice, 30);
    s.swap_icp_to_token(&alice, "XTK".to_string(), 30);
    let r = s.swap_token_to_icp(&alice, "XTK".to_string(), 30);
    assert!(r.success);
    assert_eq!(r.new_token_balance, Some(0));
    assert_eq!(r.new_icp_balance, 30);
    assert_eq!(r.message, "Successfully swapped 30 XTK tokens to 30 ICP");
    assert_eq!(s.get_token_balance(&alice, "XTK".to_string()), 0);
    assert!(s.get_user_portfolio(&alice).token_balances.is_empty());
    // swapping back does not count towards the swap total
    assert_eq!(s.get_user_portfolio(&alice).total_swaps, 30);
}

#[test]
fn zero_swap_is_refused() {
    let mut s = fresh();
    let alice = user(&[1, 2, 3]);
    s.deposit_icp(&alice, 10);
    let r = s.swap_icp_to_token(&alice, "XTK".to_string(), 0);
    assert!(!r.success);
    assert_eq!(r.message, "Swap amount must be greater than 0");
    assert_eq!(r.new_icp_balance, 10);
    assert_eq!(s.get_user_icp_balance(&alice), 10);
    assert_eq!(s.get_token_balance(&alice, "XTK".to_string()), 0);
    let r = s.swap_token_to_icp(&alice, "XTK".to_string(), 0);
    assert!(!r.success);
    assert_eq!(r.message, "Swap amount must be greater than 0");
    assert_eq!(r.new_icp_balance, 10);
}

#[test]
fn zero_deposit_is_refused() {
    let mut s = fresh();
    let alice = user(&[1, 2, 3]);
    let r = s.deposit_icp(&alice, 0);
    assert!(!r.success);
    assert_eq!(r.message, "Deposit amount must be greater than 0");
    assert_eq!(r.new_icp_balance, 0);
    assert_eq!(s.get_all_users_count(), 0);
    s.deposit_icp(&alice, 7);
    let r = s.deposit_icp(&alice, 0);
    assert!(!r.success);
    assert_eq!(r.new_icp_balance, 7);
    assert_eq!(s.get_user_icp_balance(&alice), 7);
}

#[test]
fn deposit_overflow_is_refused() {
    let mut s = fresh();
    let alice = user(&[1, 2, 3]);
    assert!(s.deposit_icp(&alice, u64::MAX).success);
    let r = s.deposit_icp(&alice, 1);
    assert!(!r.success);
    assert_eq!(r.message, "Amount would overflow a balance");
    assert_eq!(r.new_icp_balance, u64::MAX);
    assert_eq!(s.get_user_icp_balance(&alice), u64::MAX);
}

#[test]
fn swap_out_beyond_token_balance_is_refused() {
    let mut s = fresh();
    let alice = user(&[1, 2, 3]);
    s.deposit_icp(&alice, 10);
    s.swap_icp_to_token(&alice, "XTK".to_string(), 4);
    let r = s.swap_token_to_icp(&alice, "XTK".to_string(), 5);
    assert!(!r.success);
    assert_eq!(r.message, "Insufficient XTK token balance. Available: 4, Required: 5");
    assert_eq!(r.new_icp_balance, 6);
    assert_eq!(r.new_token_balance, Some(4));
    assert_eq!(s.get_token_balance(&alice, "XTK".to_string()), 4);
    assert_eq!(s.get_user_icp_balance(&alice), 6);
}

#[test]
fn swap_keeps_icp_plus_tokens_constant() {
    let mut s = fresh();
    let alice = user(&[9]);
    s.deposit_icp(&alice, 1000);
    s.swap_icp_to_token(&alice, "AAA".to_string(), 250);
    s.swap_icp_to_token(&alice, "AAA".to_string(), 125);
    let icp = s.get_user_icp_balance(&alice);
    let held = s.get_token_balance(&alice, "AAA".to_string());
    assert_eq!(icp, 625);
    assert_eq!(held, 375);
    assert_eq!(icp + held, 1000);
    s.swap_token_to_icp(&alice, "AAA".to_string(), 100);
    assert_eq!(s.get_user_icp_balance(&alice), 725);
    assert_eq!(s.get_token_balance(&alice, "AAA".to_string()), 275);
}

#[test]
fn portfolios_are_kept_apart() {
    let mut s = fresh();
    let alice = user(&[1]);
    let bob = user(&[1, 0]);
    s.deposit_icp(&alice, 10);
    s.deposit_icp(&bob, 10);
    s.swap_icp_to_token(&alice, "AAA".to_string(), 3);
    s.swap_icp_to_token(&bob, "BBB".to_string(), 4);
    s.swap_icp_to_token(&bob, "AAA".to_string(), 5);
    let mut a = s.get_user_portfolio(&alice).token_balances;
    let mut b = s.get_user_portfolio(&bob).token_balances;
    a.sort();
    b.sort();
    assert_eq!(a, vec![("AAA".to_string(), 3)]);
    assert_eq!(b, vec![("AAA".to_string(), 5), ("BBB".to_string(), 4)]);
    assert_eq!(s.get_all_users_count(), 2);
}

#[test]
fn default_swap_amount_round_trips() {
    let mut s = fresh();
    let alice = user(&[7, 7]);
    assert_eq!(s.set_default_swap_amount(&alice, 42), 42);
    assert_eq!(s.get_default_swap_amount(&alice), 42);
    assert_eq!(s.get_user_icp_balance(&alice), 0);
    assert_eq!(s.get_all_users_count(), 1);
}

#[test]
fn getters_leave_state_alone() {
    let mut s = fresh();
    let alice = user(&[5]);
    s.deposit_icp(&alice, 8);
    s.get_default_swap_amount(&alice);
    s.get_token_balance(&alice, "XTK".to_string());
    s.get_user_portfolio(&alice);
    s.get_user_icp_balance(&user(&[6]));
    assert_eq!(s.get_all_users_count(), 1);
    assert_eq!(s.get_user_icp_balance(&alice), 8);
}

#[test]
fn ledger_write_leaves_other_identities_alone() {
    let mut s = fresh();
    let alice = user(&[1]);
    let bob = user(&[2]);
    s.update_user_token_balance(&bob, "XTK", 9);
    s.update_user_token_balance(&alice, "XTK", 4);
    s.update_user_token_balance(&alice, "XTK", 0);
    assert_eq!(s.get_user_token_balance(&bob, "XTK"), 9);
    assert_eq!(s.get_user_token_balance(&alice, "XTK"), 0);
    assert!(s.get_all_user_token_balances(&alice).is_empty());
    assert_eq!(s.get_all_user_token_balances(&bob), vec![("XTK".to_string(), 9)]);
}

#[test]
fn state_survives_reopening_the_memory() {
    let memory = DefaultMemoryImpl::default();
    let alice = user(&[3, 1, 4]);
    {
        let mut s = Swipe::init(memory.clone()).unwrap();
        s.deposit_icp(&alice, 77);
        s.swap_icp_to_token(&alice, "XTK".to_string(), 7);
    }
    let s = Swipe::init(memory).unwrap();
    assert_eq!(s.get_user_icp_balance(&alice), 70);
    assert_eq!(s.get_token_balance(&alice, "XTK".to_string()), 7);
    assert_eq!(s.get_all_users_count(), 1);
}

#[test]
fn greet_reports_balances() {
    let mut s = fresh();
    let alice = user(&[1, 2, 3]);
    s.deposit_icp(&alice, 12);
    s.set_default_swap_amount(&alice, 5);
    assert_eq!(
        s.greet(&alice, "Ada".to_string()),
        "Hello, Ada! Your ICP balance: 12 ICP, Default swap amount: 5 ICP"
    );
}

#[test]
fn whoami_gives_principal_text() {
    assert_eq!(whoami(&user(&[])), "aaaaa-aa");
    assert_eq!(whoami(&user(&[4])), "2vxsx-fae");
}

#[test]
fn identity_longer_than_a_principal_is_refused() {
    assert!(Identity::from_bytes(vec![0; 29]).is_some());
    assert!(Identity::from_bytes(vec![0; 30]).is_none());
}

#[test]
fn record_round_trips_through_bytes() {
    let r = UserData { default_swap_amount: 1, icp_balance: u64::MAX, total_deposits: 0x0102030405060708, total_swaps: 4 };
    let b = r.to_bytes();
    assert_eq!(b.len(), 33);
    assert!(UserData::is_encoding(&b));
    assert_eq!(UserData::from_bytes(&b), r);
}

#[test]
fn record_encoding_is_tagged_little_endian() {
    let r = UserData { default_swap_amount: 1, icp_balance: 0x0102, total_deposits: 0, total_swaps: 0xff00000000000000 };
    let mut want = vec![1u8];
    want.extend_from_slice(&[1, 0, 0, 0, 0, 0, 0, 0]);
    want.extend_from_slice(&[2, 1, 0, 0, 0, 0, 0, 0]);
    want.extend_from_slice(&[0; 8]);
    want.extend_from_slice(&[0, 0, 0, 0, 0, 0, 0, 0xff]);
    assert_eq!(r.to_bytes(), want);
}

#[test]
fn malformed_record_bytes_are_refused() {
    let good = UserData::default().to_bytes();
    assert!(UserData::is_encoding(&good));
    assert_eq!(UserData::from_bytes(&good), UserData::default());
    assert!(!UserData::is_encoding(&good[..32]));
    let mut wrong_tag = good.clone();
    wrong_tag[0] = 2;
    assert!(!UserData::is_encoding(&wrong_tag));
    assert!(!UserData::is_encoding(&[]));
}
