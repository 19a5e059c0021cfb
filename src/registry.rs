use crate::error::RpcTypeError;
use vstd::hash_map::HashMapWithView;
use vstd::prelude::*;

verus! {

broadcast use vstd::std_specs::hash::group_hash_axioms;

/// What is known of one chain: its URL, whether its worker has been started,
/// and the handle for sending commands to that worker once there is one.
pub struct ChainState<C> {
    pub active: bool,
    pub chain_url: String,
    pub channel: Option<C>,
}

/// What the caller of `activate` must do next.
pub enum Activation {
    /// Start a worker on the URL with the subscription, then hand its
    /// command handle to `attach_channel`; if the start fails, the chain
    /// stays inactive.
    Start { url: String },
    /// A worker runs already: send the subscription to it as a command.
    Attach,
}

/// The supported chains, by chain id, with the state of each.
#[verifier::reject_recursive_types(C)]
pub struct RPChandler<C> {
    pub available_chains: Vec<usize>,
    pub chain_state: HashMapWithView<usize, ChainState<C>>,
}

impl<C> RPChandler<C> {
    pub fn new(chains: Vec<usize>) -> (r: Self)
        ensures
            r.available_chains == chains,
            r.chain_state@ == Map::<usize, ChainState<C>>::empty(),
    {
        RPChandler { available_chains: chains, chain_state: HashMapWithView::new() }
    }

    /// Records the URL of `chainid` as an inactive chain. A chain whose
    /// worker runs keeps its entry, and the call returns false.
    pub fn new_chainstate(&mut self, chainid: usize, url: String) -> (r: bool)
        ensures
            final(self).available_chains == old(self).available_chains,
            r == !(old(self).chain_state@.contains_key(chainid) && old(self).chain_state@[chainid].active),
            r ==> final(self).chain_state@ == old(self).chain_state@.insert(chainid, ChainState { active: false, chain_url: url, channel: None }),
            !r ==> final(self).chain_state@ == old(self).chain_state@,
    {
        let running = match self.chain_state.get(&chainid) {
            Some(st) => st.active,
            None => false,
        };
        if running {
            return false;
        }
        self.chain_state.insert(chainid, ChainState { active: false, chain_url: url, channel: None });
        true
    }

    /// Decides how a new subscription on `chainid` reaches a worker: an
    /// inactive chain needs its worker started, an active one takes the
    /// subscription as a command. Nothing changes here; the chain becomes
    /// active only when a started worker's handle is attached.
    pub fn activate(&self, chainid: usize) -> (r: Result<Activation, RpcTypeError>)
        ensures
            match r {
                Err(e) => e == RpcTypeError::ChainNotSupported && !self.chain_state@.contains_key(chainid),
                Ok(Activation::Start { url }) => self.chain_state@.contains_key(chainid)
                    && !self.chain_state@[chainid].active
                    && url@ == self.chain_state@[chainid].chain_url@,
                Ok(Activation::Attach) => self.chain_state@.contains_key(chainid)
                    && self.chain_state@[chainid].active,
            },
    {
        match self.chain_state.get(&chainid) {
            Some(st) => if st.active {
                Ok(Activation::Attach)
            } else {
                Ok(Activation::Start { url: st.chain_url.clone() })
            },
            None => Err(RpcTypeError::ChainNotSupported),
        }
    }

    /// Keeps the command handle of the worker started for `chainid` and
    /// marks the chain active.
    pub fn attach_channel(&mut self, chainid: usize, channel: C) -> (r: Result<(), RpcTypeError>)
        ensures
            final(self).available_chains == old(self).available_chains,
            match r {
                Ok(()) => {
                    let st = old(self).chain_state@[chainid];
                    &&& old(self).chain_state@.contains_key(chainid)
                    &&& final(self).chain_state@ == old(self).chain_state@.insert(chainid, ChainState { active: true, channel: Some(channel), ..st })
                },
                Err(e) => e == RpcTypeError::ChainNotSupported && !old(self).chain_state@.contains_key(chainid)
                    && final(self).chain_state@ == old(self).chain_state@,
            },
    {
        let st = match self.chain_state.remove(&chainid) {
            Some(st) => st,
            None => return Err(RpcTypeError::ChainNotSupported),
        };
        self.chain_state.insert(chainid, ChainState { active: true, chain_url: st.chain_url, channel: Some(channel) });
        Ok(())
    }

    /// The command handle of the worker of `chainid`.
    pub fn channel(&self, chainid: usize) -> (r: Result<&C, RpcTypeError>)
        ensures
            match r {
                Ok(c) => self.chain_state@.contains_key(chainid) && self.chain_state@[chainid].channel == Some(*c),
                Err(e) => e == RpcTypeError::ChainNotSupported && !(self.chain_state@.contains_key(chainid)
                    && self.chain_state@[chainid].channel is Some),
            },
    {
        match self.chain_state.get(&chainid) {
            Some(st) => match &st.channel {
                Some(c) => Ok(c),
                None => Err(RpcTypeError::ChainNotSupported),
            },
            None => Err(RpcTypeError::ChainNotSupported),
        }
    }
}

} // verus!
