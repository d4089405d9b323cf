//! Actor identities and the record of who consented to a call.

use vstd::prelude::*;

verus! {

/// An actor: the holder of a balance, the owner of assets, a seller or the
/// administrator. An identity is a 256-bit key together with the kind of
/// principal it names; the ledger only ever compares identities.
#[derive(Clone, Copy, Debug, PartialEq, Eq, Structural)]
pub struct Address {
    /// `true` for a contract, `false` for an account.
    pub contract: bool,
    /// The upper 128 bits of the key.
    pub hi: u128,
    /// The lower 128 bits of the key.
    pub lo: u128,
}

impl Address {
    /// The account whose key is `hi · 2^128 + lo`.
    pub fn account(hi: u128, lo: u128) -> (a: Address)
        ensures
            a == (Address { contract: false, hi, lo }),
    {
        Address { contract: false, hi, lo }
    }

    /// The contract whose key is `hi · 2^128 + lo`.
    pub fn contract(hi: u128, lo: u128) -> (a: Address)
        ensures
            a == (Address { contract: true, hi, lo }),
    {
        Address { contract: true, hi, lo }
    }
}

/// The actors who consented to the call at hand. The host that authenticates
/// callers fills it in; the ledger asks it before every privileged change.
pub struct Auth {
    signers: Vec<Address>,
}

impl View for Auth {
    type V = Set<Address>;

    closed spec fn view(&self) -> Set<Address> {
        self.signers@.to_set()
    }
}

impl Auth {
    /// Nobody consented.
    pub fn none() -> (auth: Auth)
        ensures
            auth@ == Set::<Address>::empty(),
    {
        let auth = Auth { signers: Vec::new() };
        assert(auth.signers@.to_set() =~= Set::<Address>::empty());
        auth
    }

    /// Exactly `who` consented.
    pub fn of(who: Address) -> (auth: Auth)
        ensures
            auth@ == Set::<Address>::empty().insert(who),
    {
        let mut signers: Vec<Address> = Vec::new();
        signers.push(who);
        let auth = Auth { signers };
        assert(auth.signers@.to_set() =~= Set::<Address>::empty().insert(who)) by {
            assert(auth.signers@[0] == who);
        }
        auth
    }

    /// Adds `who` to those who consented.
    pub fn and(self, who: Address) -> (auth: Auth)
        ensures
            auth@ == self@.insert(who),
    {
        let mut signers = self.signers;
        let ghost before = signers@;
        signers.push(who);
        let auth = Auth { signers };
        assert(auth.signers@.to_set() =~= before.to_set().insert(who)) by {
            assert forall|a: Address| auth.signers@.to_set().contains(a) implies before.to_set().insert(
                who,
            ).contains(a) by {
                let i = choose|i: int| 0 <= i < auth.signers@.len() && auth.signers@[i] == a;
                if i < before.len() {
                    assert(before[i] == a);
                }
            }
            assert forall|a: Address| before.to_set().insert(who).contains(a) implies auth.signers@.to_set().contains(
                a,
            ) by {
                if a == who {
                    assert(auth.signers@[before.len() as int] == a);
                } else {
                    let i = choose|i: int| 0 <= i < before.len() && before[i] == a;
                    assert(auth.signers@[i] == a);
                }
            }
        }
        auth
    }

    /// Whether `who` consented to this call.
    pub fn approves(&self, who: Address) -> (yes: bool)
        ensures
            yes == self@.contains(who),
    {
        let mut i: usize = 0;
        while i < self.signers.len()
            invariant
                i <= self.signers.len(),
                forall|k: int| 0 <= k < i ==> self.signers@[k] != who,
            decreases self.signers.len() - i,
        {
            if self.signers[i] == who {
                return true;
            }
            i += 1;
        }
        false
    }
}

} // verus!
