//! The coin object: a transferable asset.
//!
//! A coin is an independent object that an identity can own; its balance
//! is a value type. Coins are split, merged and transferred; every
//! mutation bumps the object version.

use vstd::prelude::*;
use vstd::string::StringExecFns;

use crate::object::{
    append_u64, dec_chars, generate_object_id, spec_next_version, spec_object_id, Address, Object,
};

verus! {

/// A token amount.
#[derive(Debug, Clone, PartialEq, Eq, Structural)]
pub struct Balance {
    value: u64,
}

impl Balance {
    /// The amount this balance holds.
    pub closed spec fn spec_value(self) -> u64 {
        self.value
    }

    /// Creates a balance holding the given amount.
    pub fn new(value: u64) -> (r: Self)
        ensures
            r.spec_value() == value,
    {
        Self { value }
    }

    /// The amount this balance holds.
    pub fn value(&self) -> (r: u64)
        ensures
            r == self.spec_value(),
    {
        self.value
    }

    /// Withdraws an amount, returning it as a new balance; fails and
    /// leaves the balance unchanged when it holds less than the amount.
    pub fn withdraw(&mut self, amount: u64) -> (r: Result<Balance, String>)
        ensures
            old(self).spec_value() < amount ==> (r matches Err(m) && m@
                == "Insufficient balance: have "@ + dec_chars(old(self).spec_value() as nat)
                + ", need "@ + dec_chars(amount as nat) && *final(self) == *old(self)),
            old(self).spec_value() >= amount ==> (r matches Ok(b) && b.spec_value() == amount
                && final(self).spec_value() == old(self).spec_value() - amount),
            r is Ok <==> old(self).spec_value() >= amount,
    {
        if self.value < amount {
            let mut m = String::from_str("Insufficient balance: have ");
            append_u64(&mut m, self.value);
            m.append(", need ");
            append_u64(&mut m, amount);
            return Err(m);
        }
        self.value = self.value - amount;
        Ok(Balance::new(amount))
    }

    /// Adds another balance into this one; fails and leaves the balance
    /// unchanged when the sum would overflow.
    pub fn deposit(&mut self, balance: Balance) -> (r: Result<(), String>)
        ensures
            old(self).spec_value() + balance.spec_value() <= u64::MAX ==> (r is Ok && final(self).spec_value() == old(self).spec_value() + balance.spec_value()),
            old(self).spec_value() + balance.spec_value() > u64::MAX ==> (r matches Err(m) && m@
                == "Balance overflow"@ && *final(self) == *old(self)),
            r is Ok <==> old(self).spec_value() + balance.spec_value() <= u64::MAX,
    {
        if self.value <= u64::MAX - balance.value {
            self.value = self.value + balance.value;
            Ok(())
        } else {
            Err(String::from_str("Balance overflow"))
        }
    }

    /// Consumes the balance, yielding its amount.
    pub fn destroy(self) -> (r: u64)
        ensures
            r == self.spec_value(),
    {
        self.value
    }
}

/// Payload of a coin object.
#[derive(Debug, Clone)]
pub struct CoinData {
    /// The coin's balance.
    pub balance: Balance,
}

/// A coin: a ledger object holding a balance.
pub type Coin = Object<CoinData>;

/// The creation preimage of a coin: its owner and initial value.
pub open spec fn coin_preimage(owner: Seq<char>, value: u64) -> Seq<u8> {
    vstd::utf8::encode_utf8("coin:"@ + owner + ":"@ + dec_chars(value as nat))
}

impl Coin {
    /// Creates a coin owned by the given address, holding the given
    /// value. The identifier is derived from owner and value.
    pub fn new(owner: Address, value: u64) -> (r: Self)
        ensures
            r.id@ == spec_object_id(coin_preimage(owner@, value)),
            r.metadata.owner matches Some(o) && o == owner,
            r.metadata.version == 1,
            r.data.balance.spec_value() == value,
    {
        let mut preimage = String::from_str("coin:");
        preimage.append(owner.as_str());
        preimage.append(":");
        append_u64(&mut preimage, value);
        proof {
            assert(preimage@ =~= "coin:"@ + owner@ + ":"@ + dec_chars(value as nat));
        }
        let id = generate_object_id(preimage.as_str().as_bytes());
        let data = CoinData { balance: Balance::new(value) };
        Object::new_owned(id, &owner, data)
    }

    /// The coin's balance.
    pub fn value(&self) -> (r: u64)
        ensures
            r == self.data.balance.spec_value(),
    {
        self.data.balance.value()
    }

    /// Splits an amount off into a new coin for the given owner; fails
    /// and leaves the coin unchanged when the balance is insufficient.
    /// On success the version is bumped.
    pub fn split(&mut self, amount: u64, new_owner: Address) -> (r: Result<Coin, String>)
        ensures
            old(self).data.balance.spec_value() < amount ==> (r is Err && *final(self) == *old(self)),
            old(self).data.balance.spec_value() >= amount ==> (r matches Ok(c)
                && c.data.balance.spec_value() == amount && (c.metadata.owner matches Some(o) && o
                == new_owner) && c.metadata.version == 1 && final(self).data.balance.spec_value()
                == old(self).data.balance.spec_value() - amount && final(self).metadata.version
                == spec_next_version(old(self).metadata.version) && final(self).id == old(self).id
                && final(self).metadata.owner == old(self).metadata.owner),
            r is Ok <==> old(self).data.balance.spec_value() >= amount,
    {
        let withdrawn = match self.data.balance.withdraw(amount) {
            Ok(b) => b,
            Err(m) => {
                return Err(m);
            },
        };
        let new_coin = Coin::new(new_owner, withdrawn.value());
        self.increment_version();
        Ok(new_coin)
    }

    /// Merges another coin's balance into this one; fails and leaves the
    /// coin unchanged when the sum would overflow. On success the version
    /// is bumped.
    pub fn merge(&mut self, other: Coin) -> (r: Result<(), String>)
        ensures
            old(self).data.balance.spec_value() + other.data.balance.spec_value() <= u64::MAX
                ==> (r is Ok && final(self).data.balance.spec_value() == old(self).data.balance.spec_value() + other.data.balance.spec_value() && final(self).metadata.version == spec_next_version(old(self).metadata.version) && final(self).id
                == old(self).id && final(self).metadata.owner == old(self).metadata.owner),
            old(self).data.balance.spec_value() + other.data.balance.spec_value() > u64::MAX ==> (
            r is Err && *final(self) == *old(self)),
            r is Ok <==> old(self).data.balance.spec_value() + other.data.balance.spec_value()
                <= u64::MAX,
    {
        match self.data.balance.deposit(other.data.balance) {
            Ok(()) => {},
            Err(m) => {
                return Err(m);
            },
        }
        self.increment_version();
        Ok(())
    }

    /// Hands the coin to a new owner and bumps the version.
    pub fn transfer(&mut self, new_owner: Address)
        ensures
            final(self).metadata.owner matches Some(o) && o == new_owner,
            final(self).metadata.version == spec_next_version(old(self).metadata.version),
            final(self).id == old(self).id,
            final(self).data == old(self).data,
    {
        self.metadata.owner = Some(new_owner);
        self.increment_version();
    }
}

/// Creates a coin owned by the given address.
pub fn create_coin(owner: Address, value: u64) -> (r: Coin)
    ensures
        r.id@ == spec_object_id(coin_preimage(owner@, value)),
        r.metadata.owner matches Some(o) && o == owner,
        r.metadata.version == 1,
        r.data.balance.spec_value() == value,
{
    Coin::new(owner, value)
}

} // verus!
