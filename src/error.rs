use vstd::prelude::*;

verus! {

/// Failures of the relayer handler and of transaction templates.
#[derive(Debug, Clone, Copy, PartialEq, Eq, Structural)]
pub enum RelayerError {
    InvalidABI,
    ChainHasNoRpcURL,
    NoSubscriptionFound,
    InvalidTransactionRequest,
    FunctionNotFound,
    InvalidDataType,
    InvalidTopicMapping,
    InvalidArgsCount,
    TopicOutOfIndex,
    InvalidAddress,
    AlreadyRegistered,
    /// The address named in a command has no registered relayer.
    NotAuthenticated,
    /// The subscription id is already bound to an action.
    SubscriptionError,
}

/// Text of each error.
pub open spec fn relayer_error_text(e: RelayerError) -> Seq<char> {
    match e {
        RelayerError::InvalidABI => "Invalid ABI"@,
        RelayerError::ChainHasNoRpcURL => "Chain has no URL"@,
        RelayerError::NoSubscriptionFound => "User subscription is not found"@,
        RelayerError::InvalidTransactionRequest => "invalid transaction"@,
        RelayerError::FunctionNotFound => "Function not found"@,
        RelayerError::InvalidDataType => "Invalid Data Type"@,
        RelayerError::InvalidTopicMapping => "Invalid topic mapping"@,
        RelayerError::InvalidArgsCount => "Invalid args count"@,
        RelayerError::TopicOutOfIndex => "Topic Range Out of Index"@,
        RelayerError::InvalidAddress => "Invalid address"@,
        RelayerError::AlreadyRegistered => "Already Registered"@,
        RelayerError::NotAuthenticated => "Not Authenticated"@,
        RelayerError::SubscriptionError => "Subscription already bound"@,
    }
}

impl RelayerError {
    /// Human readable text of the error, as sent back in a failed response.
    pub fn message(&self) -> (r: String)
        ensures
            r@ == relayer_error_text(*self),
    {
        let s = match self {
            RelayerError::InvalidABI => "Invalid ABI",
            RelayerError::ChainHasNoRpcURL => "Chain has no URL",
            RelayerError::NoSubscriptionFound => "User subscription is not found",
            RelayerError::InvalidTransactionRequest => "invalid transaction",
            RelayerError::FunctionNotFound => "Function not found",
            RelayerError::InvalidDataType => "Invalid Data Type",
            RelayerError::InvalidTopicMapping => "Invalid topic mapping",
            RelayerError::InvalidArgsCount => "Invalid args count",
            RelayerError::TopicOutOfIndex => "Topic Range Out of Index",
            RelayerError::InvalidAddress => "Invalid address",
            RelayerError::AlreadyRegistered => "Already Registered",
            RelayerError::NotAuthenticated => "Not Authenticated",
            RelayerError::SubscriptionError => "Subscription already bound",
        };
        s.to_owned()
    }
}

/// Failures of the chain registry and of chain workers.
#[derive(Debug, Clone, Copy, PartialEq, Eq, Structural)]
pub enum RpcTypeError {
    ChainNotSupported,
    ChainHasNoRpcURL,
    NoSubscriptionFound,
    SubscriptionError,
}

/// Text of each error.
pub open spec fn rpc_error_text(e: RpcTypeError) -> Seq<char> {
    match e {
        RpcTypeError::ChainNotSupported => "Chain is Not Supported"@,
        RpcTypeError::ChainHasNoRpcURL => "Chain has no URL"@,
        RpcTypeError::NoSubscriptionFound => "User subscription is not found"@,
        RpcTypeError::SubscriptionError => "Error while subscription"@,
    }
}

impl RpcTypeError {
    /// Human readable text of the error, as sent back in a failed response.
    pub fn message(&self) -> (r: String)
        ensures
            r@ == rpc_error_text(*self),
    {
        let s = match self {
            RpcTypeError::ChainNotSupported => "Chain is Not Supported",
            RpcTypeError::ChainHasNoRpcURL => "Chain has no URL",
            RpcTypeError::NoSubscriptionFound => "User subscription is not found",
            RpcTypeError::SubscriptionError => "Error while subscription",
        };
        s.to_owned()
    }
}

} // verus!
