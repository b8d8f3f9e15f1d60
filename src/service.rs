//! The account table, the token ledger, and the balance operations over them.

use crate::identity::{
    has_prefix, key_prefix, key_prefix_of, lemma_distinct_texts, lemma_key_split,
    lemma_ledger_key_injective, ledger_key, ledger_key_of,
    separator_free, strip_key_prefix, Identity,
};
use crate::record::{
    decode_spec, encode_spec, lemma_record_round_trip, TransactionResult, UserData, UserPortfolio,
};
use crate::store::{
    account_entries, accounts_all, accounts_get, accounts_insert, accounts_len, ledger_all,
    ledger_entries, ledger_get, ledger_insert, ledger_remove, memory_init, open_partitions,
    AccountMap, LedgerMap, Partitions,
};
use crate::text::{
    deposit_message, greeting, overflow_message, owned, push_decimal,
    short_icp_message, short_token_message, swap_in_message, swap_out_message, zero_deposit_message,
    zero_swap_message,
};
use ic_stable_structures::DefaultMemoryImpl;
use vstd::prelude::*;
use vstd::slice::slice_to_vec;

verus! {

/// Every stored record decodes and every ledger entry is positive.
pub open spec fn valid_contents(accounts: Map<Seq<u8>, Seq<u8>>, ledger: Map<Seq<char>, u64>) -> bool {
    &&& forall|k: Seq<u8>| #[trigger]
        accounts.contains_key(k) ==> decode_spec(accounts[k]) is Some
    &&& forall|k: Seq<char>| #[trigger] ledger.contains_key(k) ==> ledger[k] > 0
}

/// The asset part of `key` when it is a ledger key of the identity with text `id_text`.
pub open spec fn asset_of_key(key: Seq<char>, id_text: Seq<char>) -> Seq<char> {
    key.subrange(key_prefix(id_text).len() as int, key.len() as int)
}

/// `list` holds exactly the ledger entries of the identity whose text is
/// `id_text`, each asset once, with its balance.
pub open spec fn lists_holdings(
    list: Seq<(String, u64)>,
    ledger: Map<Seq<char>, u64>,
    id_text: Seq<char>,
) -> bool {
    &&& forall|i: int|
        #![trigger list[i]]
        #![trigger ledger.contains_key(ledger_key(id_text, list[i].0@))]
        0 <= i < list.len() ==> ledger.contains_key(ledger_key(id_text, list[i].0@))
            && ledger[ledger_key(id_text, list[i].0@)] == list[i].1
    &&& forall|a: Seq<char>| #[trigger]
        ledger.contains_key(ledger_key(id_text, a)) ==> exists|i: int|
            0 <= i < list.len() && list[i].0@ == a
    &&& forall|i: int, j: int|
        0 <= i < j < list.len() ==> #[trigger] list[i].0@ != #[trigger] list[j].0@
}

/// A deposit of `n` into `rec` keeps both affected fields within `u64`.
pub open spec fn deposit_fits(rec: UserData, n: u64) -> bool {
    rec.icp_balance + n <= u64::MAX && rec.total_deposits + n <= u64::MAX
}

/// `rec` after a deposit of `n`.
pub open spec fn deposited(rec: UserData, n: u64) -> UserData {
    UserData {
        icp_balance: (rec.icp_balance + n) as u64,
        total_deposits: (rec.total_deposits + n) as u64,
        ..rec
    }
}

/// `rec` after `n` ICP went into tokens.
pub open spec fn swapped_in(rec: UserData, n: u64) -> UserData {
    UserData {
        icp_balance: (rec.icp_balance - n) as u64,
        total_swaps: (rec.total_swaps + n) as u64,
        ..rec
    }
}

/// `rec` after `n` tokens went into ICP.
pub open spec fn swapped_out(rec: UserData, n: u64) -> UserData {
    UserData { icp_balance: (rec.icp_balance + n) as u64, ..rec }
}

/// The ledger service: an account table and a token ledger on stable memory.
pub struct Swipe {
    accounts: AccountMap,
    ledger: LedgerMap,
    accounts_id: Ghost<u8>,
    ledger_id: Ghost<u8>,
}

impl Swipe {
    /// Encoded records by principal bytes.
    pub closed spec fn accounts(&self) -> Map<Seq<u8>, Seq<u8>> {
        account_entries(self.accounts)
    }

    /// Token balances by ledger key.
    pub closed spec fn ledger(&self) -> Map<Seq<char>, u64> {
        ledger_entries(self.ledger)
    }

    pub open spec fn wf(&self) -> bool {
        valid_contents(self.accounts(), self.ledger())
    }

    /// The record of the identity with principal bytes `id`; all zero when absent.
    pub open spec fn record_of(&self, id: Seq<u8>) -> UserData {
        if self.accounts().contains_key(id) {
            decode_spec(self.accounts()[id]).unwrap()
        } else {
            UserData::zero()
        }
    }

    /// The balance of `asset` held by the identity with text `id_text`; zero when absent.
    pub open spec fn balance_of(&self, id_text: Seq<char>, asset: Seq<char>) -> u64 {
        let k = ledger_key(id_text, asset);
        if self.ledger().contains_key(k) {
            self.ledger()[k]
        } else {
            0
        }
    }

    /// The number of the partition that holds the accounts.
    pub closed spec fn accounts_partition(&self) -> u8 {
        self.accounts_id@
    }

    /// The number of the partition that holds the token ledger.
    pub closed spec fn ledger_partition(&self) -> u8 {
        self.ledger_id@
    }

    /// Both tables of `other` hold what those of `self` hold.
    pub open spec fn same_state(&self, other: Swipe) -> bool {
        self.accounts() == other.accounts() && self.ledger() == other.ledger()
    }

    /// The account table of `other` is that of `self` with `rec` stored under
    /// `id`: no other key is added, removed or changed.
    pub open spec fn record_set(&self, other: Swipe, id: Seq<u8>, rec: UserData) -> bool {
        &&& other.accounts() == self.accounts().insert(id, encode_spec(rec))
        &&& other.record_of(id) == rec
        &&& forall|x: Seq<u8>| x != id ==> #[trigger] other.record_of(x) == self.record_of(x)
    }

    /// Builds the service on partitions already opened, or gives `None` when
    /// they hold a record that does not decode or a zero balance.
    fn from_partitions(p: Partitions) -> (r: Option<Swipe>)
        ensures
            r is Some <==> valid_contents(
                account_entries(p.accounts),
                ledger_entries(p.ledger),
            ),
            r matches Some(s) ==> s.wf() && s.accounts() == account_entries(p.accounts)
                && s.ledger() == ledger_entries(p.ledger) && s.accounts_partition() == p.accounts_id@
                && s.ledger_partition() == p.ledger_id@,
    {
        let accounts = accounts_all(&p.accounts);
        let mut i: usize = 0;
        while i < accounts.len()
            invariant
                i <= accounts@.len(),
                forall|j: int|
                    0 <= j < accounts@.len() ==> #[trigger] account_entries(
                        p.accounts,
                    ).contains_key(accounts@[j].0@) && account_entries(p.accounts)[accounts@[j].0@]
                        == accounts@[j].1@,
                forall|j: int| 0 <= j < i ==> decode_spec(#[trigger] accounts@[j].1@) is Some,
            decreases accounts@.len() - i,
        {
            if !UserData::is_encoding(accounts[i].1.as_slice()) {
                assert(account_entries(p.accounts).contains_key(accounts@[i as int].0@));
                return None;
            }
            i = i + 1;
        }
        let balances = ledger_all(&p.ledger);
        let mut i: usize = 0;
        while i < balances.len()
            invariant
                i <= balances@.len(),
                forall|j: int|
                    0 <= j < balances@.len() ==> #[trigger] ledger_entries(p.ledger).contains_key(
                        balances@[j].0@,
                    ) && ledger_entries(p.ledger)[balances@[j].0@] == balances@[j].1,
                forall|j: int| 0 <= j < i ==> #[trigger] balances@[j].1 > 0,
            decreases balances@.len() - i,
        {
            if balances[i].1 == 0 {
                assert(ledger_entries(p.ledger).contains_key(balances@[i as int].0@));
                return None;
            }
            i = i + 1;
        }
        assert forall|k: Seq<u8>| #[trigger]
            account_entries(p.accounts).contains_key(k) implies decode_spec(
            account_entries(p.accounts)[k],
        ) is Some by {
            let j = choose|j: int| 0 <= j < accounts@.len() && accounts@[j].0@ == k;
            assert(decode_spec(accounts@[j].1@) is Some);
        }
        assert forall|k: Seq<char>| #[trigger]
            ledger_entries(p.ledger).contains_key(k) implies ledger_entries(p.ledger)[k] > 0 by {
            let j = choose|j: int| 0 <= j < balances@.len() && balances@[j].0@ == k;
            assert(balances@[j].1 > 0);
        }
        Some(
            Swipe {
                accounts: p.accounts,
                ledger: p.ledger,
                accounts_id: p.accounts_id,
                ledger_id: p.ledger_id,
            },
        )
    }

    /// Opens the service on `memory`: partition 0 holds the accounts and
    /// partition 1 the token ledger, loaded when the memory already holds them.
    ///
    /// Gives `None` when a stored record is not in this library's encoding
    /// (records written in another format, such as Candid, included) or a
    /// stored balance is zero. A memory whose partition table or map header is
    /// corrupt makes the stable-structures crate panic, which aborts the call.
    ///
    /// One memory must back one `Swipe` at a time: two values opened on the
    /// same memory share its storage, and what one writes changes the other.
    pub fn init(memory: DefaultMemoryImpl) -> (r: Option<Swipe>)
        ensures
            r matches Some(s) ==> s.wf() && s.accounts_partition() == 0 && s.ledger_partition()
                == 1,
    {
        let memory = memory_init(memory);
        Swipe::from_partitions(open_partitions(&memory))
    }

    /// The record of `caller`, all zero when it has none.
    pub fn get_or_create_user_data(&self, caller: &Identity) -> (r: UserData)
        requires
            self.wf(),
        ensures
            r == self.record_of(caller.bytes()),
    {
        let key = slice_to_vec(caller.as_bytes());
        match accounts_get(&self.accounts, &key) {
            Some(bytes) => UserData::from_bytes(bytes.as_slice()),
            None => UserData::default(),
        }
    }

    /// Stores `data` as the record of `caller`.
    pub fn update_user_data(&mut self, caller: &Identity, data: UserData)
        requires
            old(self).wf(),
        ensures
            final(self).wf(),
            final(self).accounts() == old(self).accounts().insert(
                caller.bytes(),
                encode_spec(data),
            ),
            final(self).ledger() == old(self).ledger(),
            final(self).record_of(caller.bytes()) == data,
            forall|id: Seq<u8>|
                id != caller.bytes() ==> #[trigger] final(self).record_of(id) == old(
                    self,
                ).record_of(id),
    {
        proof {
            lemma_record_round_trip(data);
        }
        let key = slice_to_vec(caller.as_bytes());
        accounts_insert(&mut self.accounts, key, data.to_bytes());
    }

    /// The balance of `token_id` held by `caller`, zero when it holds none.
    pub fn get_user_token_balance(&self, caller: &Identity, token_id: &str) -> (r: u64)
        requires
            caller.wf(),
        ensures
            r == self.balance_of(caller.text(), token_id@),
    {
        let key = ledger_key_of(caller, token_id);
        match ledger_get(&self.ledger, &key) {
            Some(v) => v,
            None => 0,
        }
    }

    /// Sets the balance of `token_id` held by `caller`; a zero balance removes the entry.
    pub fn update_user_token_balance(&mut self, caller: &Identity, token_id: &str, balance: u64)
        requires
            old(self).wf(),
            caller.wf(),
        ensures
            final(self).wf(),
            final(self).accounts() == old(self).accounts(),
            final(self).ledger() == if balance > 0 {
                old(self).ledger().insert(ledger_key(caller.text(), token_id@), balance)
            } else {
                old(self).ledger().remove(ledger_key(caller.text(), token_id@))
            },
            final(self).balance_of(caller.text(), token_id@) == balance,
            forall|other: Identity, a: Seq<char>|
                other.wf() && (other.bytes() != caller.bytes() || a != token_id@)
                    ==> #[trigger] final(self).balance_of(other.text(), a)
                    == old(self).balance_of(other.text(), a),
    {
        let key = ledger_key_of(caller, token_id);
        proof {
            assert forall|other: Identity, a: Seq<char>|
                other.wf() && (other.bytes() != caller.bytes() || a != token_id@) implies #[trigger] ledger_key(
                other.text(),
                a,
            ) != ledger_key(caller.text(), token_id@) by {
                if ledger_key(other.text(), a) == ledger_key(caller.text(), token_id@) {
                    lemma_ledger_key_injective(other.text(), a, caller.text(), token_id@);
                    if other.bytes() != caller.bytes() {
                        lemma_distinct_texts(other, *caller);
                    }
                }
            }
        }
        if balance > 0 {
            ledger_insert(&mut self.ledger, key, balance);
        } else {
            ledger_remove(&mut self.ledger, &key);
        }
    }

    /// Every non-zero token balance of `caller`, found by scanning the ledger
    /// for keys under `caller`'s prefix.
    pub fn get_all_user_token_balances(&self, caller: &Identity) -> (r: Vec<(String, u64)>)
        requires
            caller.wf(),
        ensures
            lists_holdings(r@, self.ledger(), caller.text()),
    {
        let prefix = key_prefix_of(caller);
        let ghost text = caller.text();
        let entries = ledger_all(&self.ledger);
        let mut out: Vec<(String, u64)> = Vec::new();
        let ghost mut src: Seq<int> = Seq::empty();
        let mut i: usize = 0;
        while i < entries.len()
            invariant
                i <= entries@.len(),
                prefix@ == key_prefix(text),
                separator_free(text),
                forall|j: int|
                    0 <= j < entries@.len() ==> #[trigger] self.ledger().contains_key(
                        entries@[j].0@,
                    ) && self.ledger()[entries@[j].0@] == entries@[j].1,
                forall|j: int, k: int|
                    0 <= j < k < entries@.len() ==> #[trigger] entries@[j].0@ != #[trigger] entries@[k].0@,
                src.len() == out@.len(),
                forall|m: int|
                    0 <= m < out@.len() ==> 0 <= #[trigger] src[m] < i && has_prefix(
                        entries@[src[m]].0@,
                        prefix@,
                    ) && out@[m].0@ == asset_of_key(entries@[src[m]].0@, text) && out@[m].1
                        == entries@[src[m]].1,
                forall|m1: int, m2: int|
                    0 <= m1 < m2 < out@.len() ==> #[trigger] src[m1] < #[trigger] src[m2],
                forall|j: int|
                    0 <= j < i && has_prefix(#[trigger] entries@[j].0@, prefix@) ==> exists|m: int|
                        0 <= m < out@.len() && src[m] == j,
            decreases entries@.len() - i,
        {
            match strip_key_prefix(entries[i].0.as_str(), prefix.as_str()) {
                Some(asset) => {
                    let ghost old_src = src;
                    let ghost old_len = out@.len();
                    out.push((asset, entries[i].1));
                    proof {
                        src = src.push(i as int);
                    }
                    assert forall|j: int|
                        0 <= j < i + 1 && has_prefix(#[trigger] entries@[j].0@, prefix@) implies exists|m: int|
                            0 <= m < out@.len() && src[m] == j by {
                        if j == i {
                            assert(src[out@.len() - 1] == j);
                        } else {
                            assert(has_prefix(entries@[j].0@, prefix@));
                            let m = choose|m: int| 0 <= m < old_len && old_src[m] == j;
                            assert(src[m] == old_src[m]);
                        }
                    }
                },
                None => {},
            }
            i = i + 1;
        }
        assert forall|m: int|
            0 <= m < out@.len() implies #[trigger] self.ledger().contains_key(
            ledger_key(text, out@[m].0@),
        ) && self.ledger()[ledger_key(text, out@[m].0@)] == out@[m].1 by {
            lemma_key_split(entries@[src[m]].0@, text);
        }
        assert forall|a: Seq<char>| #[trigger]
            self.ledger().contains_key(ledger_key(text, a)) implies exists|m: int|
                0 <= m < out@.len() && out@[m].0@ == a by {
            let k = ledger_key(text, a);
            let j = choose|j: int| 0 <= j < entries@.len() && entries@[j].0@ == k;
            assert(k.subrange(0, key_prefix(text).len() as int) =~= key_prefix(text));
            let m = choose|m: int| 0 <= m < out@.len() && src[m] == j;
            assert(asset_of_key(k, text) =~= a);
        }
        assert forall|m1: int, m2: int|
            0 <= m1 < m2 < out@.len() implies #[trigger] out@[m1].0@ != #[trigger] out@[m2].0@ by {
            if out@[m1].0@ == out@[m2].0@ {
                lemma_key_split(entries@[src[m1]].0@, text);
                lemma_key_split(entries@[src[m2]].0@, text);
            }
        }
        out
    }

    /// Sets `caller`'s default swap amount and returns it.
    pub fn set_default_swap_amount(&mut self, caller: &Identity, amount: u64) -> (r: u64)
        requires
            old(self).wf(),
        ensures
            final(self).wf(),
            r == amount,
            old(self).record_set(
                *final(self),
                caller.bytes(),
                (UserData { default_swap_amount: amount, ..old(self).record_of(caller.bytes()) }),
            ),
            final(self).ledger() == old(self).ledger(),
    {
        let mut data = self.get_or_create_user_data(caller);
        data.default_swap_amount = amount;
        self.update_user_data(caller, data);
        amount
    }

    /// `caller`'s default swap amount; zero when it has no record.
    pub fn get_default_swap_amount(&self, caller: &Identity) -> (r: u64)
        requires
            self.wf(),
        ensures
            r == self.record_of(caller.bytes()).default_swap_amount,
    {
        self.get_or_create_user_data(caller).default_swap_amount
    }

    /// Credits `amount` ICP to `caller`. A zero amount is refused, as is one
    /// that would overflow the balance or the deposit total; then nothing changes.
    pub fn deposit_icp(&mut self, caller: &Identity, amount: u64) -> (r: TransactionResult)
        requires
            old(self).wf(),
        ensures
            final(self).wf(),
            r.new_token_balance is None,
            r.success == (amount > 0 && deposit_fits(old(self).record_of(caller.bytes()), amount)),
            amount == 0 ==> r.message@ == zero_deposit_message() && r.new_icp_balance == old(
                self,
            ).record_of(caller.bytes()).icp_balance,
            amount > 0 && !deposit_fits(old(self).record_of(caller.bytes()), amount) ==> r.message@
                == overflow_message() && r.new_icp_balance == old(self).record_of(
                caller.bytes(),
            ).icp_balance,
            !r.success ==> final(self).same_state(*old(self)),
            r.success ==> {
                &&& old(self).record_set(
                    *final(self),
                    caller.bytes(),
                    deposited(old(self).record_of(caller.bytes()), amount),
                )
                &&& final(self).ledger() == old(self).ledger()
                &&& r.new_icp_balance == final(self).record_of(caller.bytes()).icp_balance
                &&& r.message@ == deposit_message(amount)
                &&& final(self).record_of(caller.bytes()).icp_balance == old(self).record_of(
                    caller.bytes(),
                ).icp_balance + amount
                &&& final(self).record_of(caller.bytes()).total_deposits == old(self).record_of(
                    caller.bytes(),
                ).total_deposits + amount
            },
    {
        let mut data = self.get_or_create_user_data(caller);
        if amount == 0 {
            return TransactionResult {
                success: false,
                message: owned("Deposit amount must be greater than 0"),
                new_icp_balance: data.icp_balance,
                new_token_balance: None,
            };
        }
        let icp = data.icp_balance.checked_add(amount);
        let deposits = data.total_deposits.checked_add(amount);
        if icp.is_none() || deposits.is_none() {
            return TransactionResult {
                success: false,
                message: owned("Amount would overflow a balance"),
                new_icp_balance: data.icp_balance,
                new_token_balance: None,
            };
        }
        data.icp_balance = icp.unwrap();
        data.total_deposits = deposits.unwrap();
        self.update_user_data(caller, data);
        let mut message = owned("Successfully deposited ");
        push_decimal(&mut message, amount);
        message.append(" ICP");
        TransactionResult {
            success: true,
            message,
            new_icp_balance: data.icp_balance,
            new_token_balance: None,
        }
    }

    /// `caller`'s ICP balance; zero when it has no record.
    pub fn get_user_icp_balance(&self, caller: &Identity) -> (r: u64)
        requires
            self.wf(),
        ensures
            r == self.record_of(caller.bytes()).icp_balance,
    {
        self.get_or_create_user_data(caller).icp_balance
    }

    /// Swaps `amount` of `caller`'s ICP into `token_id` tokens at one to one.
    /// A zero amount is refused, as is one above the ICP balance or one that
    /// would overflow the token balance or the swap total; then nothing changes.
    pub fn swap_icp_to_token(&mut self, caller: &Identity, token_id: String, amount: u64) -> (r:
        TransactionResult)
        requires
            old(self).wf(),
            caller.wf(),
        ensures
            final(self).wf(),
            ({
                let rec = old(self).record_of(caller.bytes());
                let held = old(self).balance_of(caller.text(), token_id@);
                let fits = held + amount <= u64::MAX && rec.total_swaps + amount <= u64::MAX;
                &&& r.success == (amount > 0 && rec.icp_balance >= amount && fits)
                &&& amount == 0 ==> r.message@ == zero_swap_message() && r.new_icp_balance
                    == rec.icp_balance
                    && r.new_token_balance is None
                &&& amount > 0 && rec.icp_balance < amount ==> r.message@ == short_icp_message(
                    rec.icp_balance,
                    amount,
                ) && r.new_icp_balance == rec.icp_balance && r.new_token_balance is None
                &&& amount > 0 && rec.icp_balance >= amount && !fits ==> r.message@
                    == overflow_message() && r.new_icp_balance == rec.icp_balance
                    && r.new_token_balance == Some(held)
                &&& !r.success ==> final(self).same_state(*old(self))
                &&& r.success ==> {
                    &&& old(self).record_set(*final(self), caller.bytes(), swapped_in(rec, amount))
                    &&& final(self).ledger() == old(self).ledger().insert(
                        ledger_key(caller.text(), token_id@),
                        (held + amount) as u64,
                    )
                    &&& r.new_icp_balance == rec.icp_balance - amount
                    &&& r.new_token_balance == Some((held + amount) as u64)
                    &&& r.message@ == swap_in_message(token_id@, amount)
                    &&& final(self).record_of(caller.bytes()).icp_balance == rec.icp_balance
                        - amount
                    &&& final(self).balance_of(caller.text(), token_id@) == held + amount
                    &&& final(self).record_of(caller.bytes()).icp_balance + final(self).balance_of(
                        caller.text(),
                        token_id@,
                    ) == rec.icp_balance + held
                }
            }),
    {
        let mut data = self.get_or_create_user_data(caller);
        if amount == 0 {
            return TransactionResult {
                success: false,
                message: owned("Swap amount must be greater than 0"),
                new_icp_balance: data.icp_balance,
                new_token_balance: None,
            };
        }
        if data.icp_balance < amount {
            let mut message = owned("Insufficient ICP balance. Available: ");
            push_decimal(&mut message, data.icp_balance);
            message.append(", Required: ");
            push_decimal(&mut message, amount);
            return TransactionResult {
                success: false,
                message,
                new_icp_balance: data.icp_balance,
                new_token_balance: None,
            };
        }
        let held = self.get_user_token_balance(caller, token_id.as_str());
        let new_held = held.checked_add(amount);
        let swaps = data.total_swaps.checked_add(amount);
        if new_held.is_none() || swaps.is_none() {
            return TransactionResult {
                success: false,
                message: owned("Amount would overflow a balance"),
                new_icp_balance: data.icp_balance,
                new_token_balance: Some(held),
            };
        }
        let new_held = new_held.unwrap();
        data.icp_balance = data.icp_balance - amount;
        data.total_swaps = swaps.unwrap();
        self.update_user_data(caller, data);
        self.update_user_token_balance(caller, token_id.as_str(), new_held);
        let mut message = owned("Successfully swapped ");
        push_decimal(&mut message, amount);
        message.append(" ICP to ");
        push_decimal(&mut message, amount);
        message.append(" ");
        message.append(token_id.as_str());
        message.append(" tokens");
        TransactionResult {
            success: true,
            message,
            new_icp_balance: data.icp_balance,
            new_token_balance: Some(new_held),
        }
    }

    /// Swaps `amount` of `caller`'s `token_id` tokens back into ICP at one to
    /// one. A zero amount is refused, as is one above the token balance or one
    /// that would overflow the ICP balance; then nothing changes. A token
    /// balance that reaches zero leaves the ledger.
    pub fn swap_token_to_icp(&mut self, caller: &Identity, token_id: String, amount: u64) -> (r:
        TransactionResult)
        requires
            old(self).wf(),
            caller.wf(),
        ensures
            final(self).wf(),
            ({
                let rec = old(self).record_of(caller.bytes());
                let held = old(self).balance_of(caller.text(), token_id@);
                let fits = rec.icp_balance + amount <= u64::MAX;
                let key = ledger_key(caller.text(), token_id@);
                &&& r.success == (amount > 0 && held >= amount && fits)
                &&& amount == 0 ==> r.message@ == zero_swap_message() && r.new_icp_balance
                    == rec.icp_balance
                    && r.new_token_balance is None
                &&& amount > 0 && held < amount ==> r.message@ == short_token_message(
                    token_id@,
                    held,
                    amount,
                ) && r.new_icp_balance == rec.icp_balance && r.new_token_balance == Some(held)
                &&& amount > 0 && held >= amount && !fits ==> r.message@ == overflow_message()
                    && r.new_icp_balance == rec.icp_balance && r.new_token_balance == Some(held)
                &&& !r.success ==> final(self).same_state(*old(self))
                &&& r.success ==> {
                    &&& old(self).record_set(*final(self), caller.bytes(), swapped_out(rec, amount))
                    &&& final(self).ledger() == if held == amount {
                        old(self).ledger().remove(key)
                    } else {
                        old(self).ledger().insert(key, (held - amount) as u64)
                    }
                    &&& r.new_icp_balance == rec.icp_balance + amount
                    &&& r.new_token_balance == Some((held - amount) as u64)
                    &&& r.message@ == swap_out_message(token_id@, amount)
                }
            }),
    {
        let mut data = self.get_or_create_user_data(caller);
        if amount == 0 {
            return TransactionResult {
                success: false,
                message: owned("Swap amount must be greater than 0"),
                new_icp_balance: data.icp_balance,
                new_token_balance: None,
            };
        }
        let held = self.get_user_token_balance(caller, token_id.as_str());
        if held < amount {
            let mut message = owned("Insufficient ");
            message.append(token_id.as_str());
            message.append(" token balance. Available: ");
            push_decimal(&mut message, held);
            message.append(", Required: ");
            push_decimal(&mut message, amount);
            return TransactionResult {
                success: false,
                message,
                new_icp_balance: data.icp_balance,
                new_token_balance: Some(held),
            };
        }
        let icp = data.icp_balance.checked_add(amount);
        if icp.is_none() {
            return TransactionResult {
                success: false,
                message: owned("Amount would overflow a balance"),
                new_icp_balance: data.icp_balance,
                new_token_balance: Some(held),
            };
        }
        data.icp_balance = icp.unwrap();
        let new_held = held - amount;
        self.update_user_data(caller, data);
        self.update_user_token_balance(caller, token_id.as_str(), new_held);
        let mut message = owned("Successfully swapped ");
        push_decimal(&mut message, amount);
        message.append(" ");
        message.append(token_id.as_str());
        message.append(" tokens to ");
        push_decimal(&mut message, amount);
        message.append(" ICP");
        TransactionResult {
            success: true,
            message,
            new_icp_balance: data.icp_balance,
            new_token_balance: Some(new_held),
        }
    }

    /// `caller`'s record together with all of its non-zero token balances.
    pub fn get_user_portfolio(&self, caller: &Identity) -> (r: UserPortfolio)
        requires
            self.wf(),
            caller.wf(),
        ensures
            r.icp_balance == self.record_of(caller.bytes()).icp_balance,
            r.default_swap_amount == self.record_of(caller.bytes()).default_swap_amount,
            r.total_deposits == self.record_of(caller.bytes()).total_deposits,
            r.total_swaps == self.record_of(caller.bytes()).total_swaps,
            lists_holdings(r.token_balances@, self.ledger(), caller.text()),
    {
        let data = self.get_or_create_user_data(caller);
        let token_balances = self.get_all_user_token_balances(caller);
        UserPortfolio {
            icp_balance: data.icp_balance,
            default_swap_amount: data.default_swap_amount,
            token_balances,
            total_deposits: data.total_deposits,
            total_swaps: data.total_swaps,
        }
    }

    /// `caller`'s balance of `token_id`; zero when it holds none.
    pub fn get_token_balance(&self, caller: &Identity, token_id: String) -> (r: u64)
        requires
            caller.wf(),
        ensures
            r == self.balance_of(caller.text(), token_id@),
    {
        self.get_user_token_balance(caller, token_id.as_str())
    }

    /// The number of identities with a stored record.
    pub fn get_all_users_count(&self) -> (r: u64)
        ensures
            r == self.accounts().dom().len(),
    {
        accounts_len(&self.accounts)
    }

    /// Greets `name` with `caller`'s ICP balance and default swap amount.
    pub fn greet(&self, caller: &Identity, name: String) -> (r: String)
        requires
            self.wf(),
        ensures
            r@ == greeting(
                name@,
                self.record_of(caller.bytes()).icp_balance,
                self.record_of(caller.bytes()).default_swap_amount,
            ),
    {
        let data = self.get_or_create_user_data(caller);
        let mut r = owned("Hello, ");
        r.append(name.as_str());
        r.append("! Your ICP balance: ");
        push_decimal(&mut r, data.icp_balance);
        r.append(" ICP, Default swap amount: ");
        push_decimal(&mut r, data.default_swap_amount);
        r.append(" ICP");
        r
    }
}

/// Listing one identity's holdings never yields an entry of another identity:
/// for identities with different principals, no asset in the listing for `a`
/// is kept under any ledger key of `b`, even when `b`'s text extends `a`'s.
pub proof fn lemma_listing_isolated(
    list: Seq<(String, u64)>,
    ledger: Map<Seq<char>, u64>,
    a: Identity,
    b: Identity,
)
    requires
        a.wf(),
        b.wf(),
        a.bytes() != b.bytes(),
        lists_holdings(list, ledger, a.text()),
    ensures
        forall|i: int, asset: Seq<char>|
            0 <= i < list.len() ==> #[trigger] ledger_key(a.text(), list[i].0@) != #[trigger] ledger_key(
                b.text(),
                asset,
            ),
{
    assert forall|i: int, asset: Seq<char>|
        0 <= i < list.len() implies #[trigger] ledger_key(a.text(), list[i].0@) != #[trigger] ledger_key(
        b.text(),
        asset,
    ) by {
        if ledger_key(a.text(), list[i].0@) == ledger_key(b.text(), asset) {
            lemma_ledger_key_injective(a.text(), list[i].0@, b.text(), asset);
        }
    }
}

/// The textual form of `caller`.
pub fn whoami(caller: &Identity) -> (r: String)
    requires
        caller.wf(),
    ensures
        r@ == caller.text(),
{
    caller.to_text()
}

} // verus!
