//! The admission check: a restricted call is let through only when its
//! signer is a member.

use crate::membership::MembershipStore;
use crate::pallet::Pallet;
use crate::AccountId;
use std::marker::PhantomData;
use vstd::prelude::*;

verus! {

/// Tells which calls are subject to the allow-list. The host supplies it;
/// nothing is taken for granted about how it answers.
pub trait BlockCallMatcher<Call> {
    /// Whether `call` is restricted.
    fn matches(call: &Call) -> bool;
}

/// What a deployment fixes for the admission check: its calls and which of
/// them are restricted.
pub trait Config {
    type RuntimeCall;

    type CallsToFilter: BlockCallMatcher<Self::RuntimeCall>;
}

/// What a call declares about its execution, as far as admission reads it.
#[derive(Clone, Copy, Debug, Default, PartialEq, Eq)]
pub struct DispatchInfo {
    /// The declared execution cost of the call.
    pub ref_time: u64,
}

/// What the pipeline is told about a transaction that is let through.
#[derive(Clone, Debug, PartialEq, Eq)]
pub struct ValidTransaction {
    pub priority: u64,
    pub requires: Vec<Vec<u8>>,
    pub provides: Vec<Vec<u8>>,
    pub longevity: u64,
    pub propagate: bool,
}

impl ValidTransaction {
    /// Lowest priority, no tags, the longest lifetime, and propagation
    /// allowed.
    pub open spec fn is_default_with(&self, priority: u64) -> bool {
        &&& self.priority == priority
        &&& self.requires@.len() == 0
        &&& self.provides@.len() == 0
        &&& self.longevity == u64::MAX
        &&& self.propagate
    }
}

impl Default for ValidTransaction {
    fn default() -> (valid: ValidTransaction)
        ensures
            valid.is_default_with(0),
    {
        ValidTransaction {
            priority: 0,
            requires: Vec::new(),
            provides: Vec::new(),
            longevity: u64::MAX,
            propagate: true,
        }
    }
}

/// Why a transaction is kept out of the pipeline.
#[derive(Clone, Copy, Debug, PartialEq, Eq, Structural)]
pub enum InvalidTransaction {
    /// The signer may not submit this call.
    BadSigner,
}

/// Whether a call goes through: a restricted call from a signer who is no
/// member does not, every other call does.
pub open spec fn admitted(members: Seq<AccountId>, signer: AccountId, restricted: bool) -> bool {
    !restricted || members.contains(signer)
}

/// Decides on a call of `signer`, given whether the call is restricted.
pub fn check(members: &MembershipStore, signer: AccountId, restricted: bool) -> (result: Result<
    (),
    InvalidTransaction,
>)
    ensures
        result is Ok <==> admitted(members@, signer, restricted),
        result is Err ==> result == Err::<(), InvalidTransaction>(InvalidTransaction::BadSigner),
{
    if restricted && !members.is_member(signer) {
        Err(InvalidTransaction::BadSigner)
    } else {
        Ok(())
    }
}

/// Decides on a call of `signer`, given whether the call is restricted and
/// what it declares: where it goes through, the pipeline is told its declared
/// cost as priority and otherwise default terms.
pub fn decide(
    members: &MembershipStore,
    signer: AccountId,
    restricted: bool,
    info: &DispatchInfo,
) -> (result: Result<ValidTransaction, InvalidTransaction>)
    ensures
        result is Ok <==> admitted(members@, signer, restricted),
        result is Ok ==> result->Ok_0.is_default_with(info.ref_time),
        result is Err ==> result->Err_0 == InvalidTransaction::BadSigner,
{
    match check(members, signer, restricted) {
        Ok(()) => Ok(
            ValidTransaction {
                priority: info.ref_time,
                requires: Vec::new(),
                provides: Vec::new(),
                longevity: u64::MAX,
                propagate: true,
            },
        ),
        Err(e) => Err(e),
    }
}

/// Whether `restricted` is an answer that the matcher of the deployment `T`
/// gives when asked about `call`.
pub open spec fn matcher_answers<T: Config>(call: &T::RuntimeCall, restricted: bool) -> bool {
    call_ensures(T::CallsToFilter::matches, (call,), restricted)
}

/// The admission check of a deployment `T`. It holds nothing: every answer
/// is read off the allow-list it is shown.
pub struct AllowAccount<T: Config>(PhantomData<T>);

impl<T: Config> AllowAccount<T> {
    pub fn new() -> (extension: Self) {
        AllowAccount(PhantomData)
    }

    /// Nothing is signed beyond the transaction itself.
    pub fn additional_signed(&self) -> (result: Result<(), InvalidTransaction>)
        ensures
            result is Ok,
    {
        Ok(())
    }

    /// Decides whether the call of `who` enters the pipeline: asks the
    /// deployment's matcher whether the call is restricted and answers as
    /// `decide` does for what the matcher said. Whatever the matcher says, a
    /// member is let through, and only a non-member is ever turned down.
    pub fn validate(
        &self,
        pallet: &Pallet,
        who: &AccountId,
        call: &T::RuntimeCall,
        info: &DispatchInfo,
        len: usize,
    ) -> (result: Result<ValidTransaction, InvalidTransaction>)
        ensures
            exists|restricted: bool|
                #[trigger] matcher_answers::<T>(call, restricted) && (result is Ok <==> admitted(
                    pallet@.members,
                    *who,
                    restricted,
                )),
            pallet@.is_member(*who) ==> result is Ok,
            result is Ok ==> result->Ok_0.is_default_with(info.ref_time),
            result is Err ==> !pallet@.is_member(*who) && result->Err_0
                == InvalidTransaction::BadSigner,
    {
        let restricted = T::CallsToFilter::matches(call);
        assert(matcher_answers::<T>(call, restricted));
        decide(pallet.members(), *who, restricted, info)
    }

    /// Decides once more, just before execution, by the rule of `validate`:
    /// asks the deployment's matcher whether the call is restricted, and
    /// turns the call down as `BadSigner` where the matcher said so and `who`
    /// is no member.
    pub fn pre_dispatch(
        self,
        pallet: &Pallet,
        who: &AccountId,
        call: &T::RuntimeCall,
        info: &DispatchInfo,
        len: usize,
    ) -> (result: Result<(), InvalidTransaction>)
        ensures
            exists|restricted: bool|
                #[trigger] matcher_answers::<T>(call, restricted) && (result is Ok <==> admitted(
                    pallet@.members,
                    *who,
                    restricted,
                )),
            pallet@.is_member(*who) ==> result is Ok,
            result is Err ==> !pallet@.is_member(*who) && result->Err_0
                == InvalidTransaction::BadSigner,
    {
        match self.validate(pallet, who, call, info, len) {
            Ok(_) => Ok(()),
            Err(e) => Err(e),
        }
    }
}

} // verus!
