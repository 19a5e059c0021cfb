use crate::address::Address;
use vstd::prelude::*;

verus! {

/// An on-chain event record: emitting contract, indexed topics (the first is
/// the event selector) and the data blob.
#[derive(Debug, Clone)]
pub struct EventLog {
    pub address: Address,
    pub topics: Vec<[u8; 32]>,
    pub data: Vec<u8>,
}

/// A transaction ready to be signed and sent.
#[derive(Debug, Clone)]
pub struct TxRequest {
    pub to: Address,
    pub from: Option<Address>,
    pub chain_id: Option<u64>,
    pub input: Vec<u8>,
}

/// A service-side signing key bound to one user, and its public address.
#[derive(Clone, Copy)]
pub struct RelayerKey {
    pub secret: [u8; 32],
    pub address: Address,
}

/// One entry of a user's update log: the serialized receipt and the
/// transaction hash.
#[derive(Clone, Debug)]
pub struct UserUpdates {
    pub Message: String,
    pub tx: String,
}

impl UserUpdates {
    /// A field-by-field copy.
    pub fn copied(&self) -> (r: UserUpdates)
        ensures
            r == *self,
    {
        UserUpdates { Message: self.Message.clone(), tx: self.tx.clone() }
    }
}

/// Commands handled by a chain worker.
#[derive(Clone)]
pub enum SubscriptionType {
    /// Install a log filter for `user` over the given contracts and event
    /// signatures.
    Subscription {
        user: Address,
        chainid: usize,
        address: Vec<Address>,
        event_signature: Vec<String>,
    },
    /// Sign `tx` with `signer` and submit it for `user`.
    Transaction { user: Address, signer: RelayerKey, tx: TxRequest },
    /// Remove the subscription `subs` of `user`.
    Revoke_Sub { user: Address, subs: String },
}

/// Messages flowing back from workers and to callers.
pub enum RpcTypes {
    /// A log seen on the subscription `sub_id` of `user`.
    UserLog { user: Address, sub_id: String, log: EventLog },
    Response { success: bool, message: String },
    Logs { logs: Vec<UserUpdates> },
}

/// Commands handled by the relayer handler; users are named by address text.
pub enum RelayerCommand {
    Register { user: String },
    GetLogs { user: String },
    DefineRelayerAction {
        user: String,
        sub_id: String,
        chainid: usize,
        target_address: String,
        ABI: String,
        function_name: String,
        Params: Vec<(usize, String)>,
    },
    Revoke_Subscription { user: String, sub_id: String },
    Get_RalyerInfo { user: String },
}

} // verus!
