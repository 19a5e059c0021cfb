use crate::address::{address_of_text, parse_address, Address};
use crate::error::{RelayerError, RpcTypeError};
use crate::handler::{ids_view, lemma_user_key_injective, user_key, RelayerHandler};
use crate::abi::call_data;
use crate::template::{build_plan, RawTransaction};
use crate::types::{EventLog, SubscriptionType};
use crate::worker::{chainRpc, sub_owner};
use vstd::hash_map::{HashMapWithView, StringHashMap};
use vstd::prelude::*;

verus! {

broadcast use vstd::std_specs::hash::group_hash_axioms;

/// Why a composite operation failed: in a chain worker or in the handler.
#[derive(Debug, Clone, Copy, PartialEq, Eq, Structural)]
pub enum RelayError {
    Rpc(RpcTypeError),
    Relayer(RelayerError),
}

/// The handler together with the workers of the started chains, driven so
/// that subscribing and binding happen as one step. `sub_chain` records on
/// which chain each live subscription id runs.
pub struct Relay {
    pub supported: Vec<usize>,
    pub handler: RelayerHandler,
    pub workers: HashMapWithView<usize, chainRpc>,
    pub sub_chain: StringHashMap<usize>,
}

impl Relay {
    pub open spec fn worker_has(&self, c: usize, s: Seq<char>) -> bool {
        self.workers@.contains_key(c) && self.workers@[c].live_view().contains_key(s)
    }

    /// Handler and workers are each well formed, every worker sits under its
    /// own chain id, and a subscription id is bound in the handler exactly
    /// when it is live on a worker: on the chain that `sub_chain` names,
    /// which is the chain of its template, with the same owner.
    pub open spec fn wf(&self) -> bool {
        &&& self.handler.wf()
        &&& forall|c: usize| #[trigger] self.workers@.contains_key(c) ==> self.workers@[c].wf() && self.workers@[c].chain() == c
        &&& forall|s: Seq<char>| #[trigger] self.sub_chain@.contains_key(s) <==> self.handler.actions_view().contains_key(s)
        &&& forall|s: Seq<char>| #[trigger] self.sub_chain@.contains_key(s) ==> {
            let c = self.sub_chain@[s];
            &&& self.worker_has(c, s)
            &&& self.handler.actions_view()[s].template.chain_id == c
            &&& sub_owner(self.workers@[c].live_view()[s]) == self.handler.actions_view()[s].user@
        }
        &&& forall|c: usize, s: Seq<char>| #[trigger] self.worker_has(c, s)
            ==> self.sub_chain@.contains_key(s) && self.sub_chain@[s] == c
    }

    /// An empty relay for the given chains.
    pub fn new(supported: Vec<usize>) -> (r: Self)
        ensures
            r.wf(),
            r.supported == supported,
            r.handler.relayers_view() == Map::<Seq<char>, crate::handler::UserInfo>::empty(),
            r.workers@ == Map::<usize, chainRpc>::empty(),
    {
        let r = Relay {
            supported,
            handler: RelayerHandler::new_handler(),
            workers: HashMapWithView::new(),
            sub_chain: StringHashMap::new(),
        };
        r
    }

    fn is_supported(&self, chain: usize) -> (r: bool)
        ensures
            r == self.supported@.contains(chain),
    {
        let mut i: usize = 0;
        while i < self.supported.len()
            invariant
                i <= self.supported@.len(),
                forall|j: int| 0 <= j < i ==> self.supported@[j] != chain,
            decreases self.supported@.len() - i,
        {
            if self.supported[i] == chain {
                return true;
            }
            i = i + 1;
        }
        false
    }

    /// Subscribes `user` on `chain` to the logs of `addresses` and `events`,
    /// installed under the provider-assigned `sub_id`, and binds `template`
    /// to it, in one step. Every check comes before any change, so a refused
    /// request changes nothing.
    pub fn subscribe(
        &mut self,
        user: String,
        chain: usize,
        addresses: Vec<Address>,
        events: Vec<String>,
        sub_id: String,
        template: RawTransaction,
    ) -> (r: Result<(), RelayError>)
        requires
            old(self).wf(),
        ensures
            final(self).wf(),
            final(self).supported == old(self).supported,
            match r {
                Ok(()) => {
                    let a = address_of_text(user@).unwrap();
                    &&& address_of_text(user@) is Some
                    &&& old(self).handler.relayers_view().contains_key(user_key(a))
                    &&& !old(self).handler.actions_view().contains_key(sub_id@)
                    &&& template.chain_id == chain
                    &&& (old(self).supported@.contains(chain) || old(self).workers@.contains_key(chain))
                    &&& final(self).handler.actions_view() == old(self).handler.actions_view().insert(sub_id@, final(self).handler.actions_view()[sub_id@])
                    &&& final(self).handler.actions_view()[sub_id@].template == template
                    &&& final(self).handler.actions_view()[sub_id@].user@ == a
                    &&& final(self).sub_chain@ == old(self).sub_chain@.insert(sub_id@, chain)
                    &&& final(self).worker_has(chain, sub_id@)
                },
                Err(e) => *final(self) == *old(self) && match e {
                    RelayError::Relayer(RelayerError::InvalidAddress) => address_of_text(user@) is None,
                    RelayError::Relayer(RelayerError::NotAuthenticated) => address_of_text(user@) is Some
                        && !old(self).handler.relayers_view().contains_key(user_key(address_of_text(user@).unwrap())),
                    RelayError::Rpc(RpcTypeError::SubscriptionError) => old(self).handler.actions_view().contains_key(sub_id@)
                        || (old(self).workers@.contains_key(chain)
                            && old(self).workers@[chain].count() == usize::MAX),
                    RelayError::Relayer(RelayerError::InvalidTransactionRequest) => template.chain_id != chain,
                    RelayError::Rpc(RpcTypeError::ChainNotSupported) => !old(self).workers@.contains_key(chain)
                        && !old(self).supported@.contains(chain),
                    _ => false,
                },
            },
    {
        let a = match parse_address(user.as_str()) {
            Some(a) => a,
            None => return Err(RelayError::Relayer(RelayerError::InvalidAddress)),
        };
        match self.handler.get_relayer_info(user.clone()) {
            Ok(_) => {},
            Err(_) => return Err(RelayError::Relayer(RelayerError::NotAuthenticated)),
        }
        if self.sub_chain.contains_key(sub_id.as_str()) {
            return Err(RelayError::Rpc(RpcTypeError::SubscriptionError));
        }
        if template.chain_id != chain {
            return Err(RelayError::Relayer(RelayerError::InvalidTransactionRequest));
        }
        let exists = self.workers.contains_key(&chain);
        if !exists && !self.is_supported(chain) {
            return Err(RelayError::Rpc(RpcTypeError::ChainNotSupported));
        }
        if exists {
            let full = match self.workers.get(&chain) {
                Some(w) => w.subscription_count() == usize::MAX,
                None => false,
            };
            if full {
                return Err(RelayError::Rpc(RpcTypeError::SubscriptionError));
            }
        }
        let ghost old_self = *self;
        let cmd = SubscriptionType::Subscription { user: a, chainid: chain, address: addresses, event_signature: events };
        let ghost g_cmd = cmd;
        if exists {
            let mut w = match self.workers.remove(&chain) {
                Some(w) => w,
                None => return Err(RelayError::Rpc(RpcTypeError::ChainNotSupported)),
            };
            let ghost old_w = w;
            match w.on_subscribed(cmd, sub_id.clone()) {
                Ok(()) => {},
                Err(e) => {
                    assert(old_w.live_view().contains_key(sub_id@) ==> old_self.worker_has(chain, sub_id@));
                    return Err(RelayError::Rpc(e));
                },
            }
            self.workers.insert(chain, w);
        } else {
            let w = match chainRpc::new(chain, sub_id.clone(), cmd) {
                Ok(w) => w,
                Err(e) => return Err(RelayError::Rpc(e)),
            };
            self.workers.insert(chain, w);
        }
        let ghost w_new = self.workers@[chain];
        assert(w_new.live_view().contains_key(sub_id@));
        assert(w_new.live_view()[sub_id@] == g_cmd);
        assert(exists ==> w_new.live_view() == old_self.workers@[chain].live_view().insert(sub_id@, g_cmd));
        assert(!exists ==> w_new.live_view() == Map::<Seq<char>, SubscriptionType>::empty().insert(sub_id@, g_cmd));
        self.sub_chain.insert(sub_id.clone(), chain);
        let ghost old_handler = self.handler;
        let ghost sid = sub_id@;
        match self.handler.define_relayer_action(user, sub_id, template) {
            Ok(()) => {},
            Err(e) => return Err(RelayError::Relayer(e)),
        }
        proof {
            assert forall|c: usize| #[trigger] self.workers@.contains_key(c) implies self.workers@[c].wf() && self.workers@[c].chain() == c by {
                if c != chain {
                    assert(old_self.workers@.contains_key(c));
                }
            }
            assert forall|x: Seq<char>| #[trigger] self.sub_chain@.contains_key(x) implies {
                let c = self.sub_chain@[x];
                &&& self.worker_has(c, x)
                &&& self.handler.actions_view()[x].template.chain_id == c
                &&& sub_owner(self.workers@[c].live_view()[x]) == self.handler.actions_view()[x].user@
            } by {
                if x != sid {
                    assert(old_self.sub_chain@.contains_key(x));
                    let c = old_self.sub_chain@[x];
                    assert(old_self.worker_has(c, x));
                }
            }
            assert forall|c: usize, x: Seq<char>| #[trigger] self.worker_has(c, x) implies
                self.sub_chain@.contains_key(x) && self.sub_chain@[x] == c by {
                if x != sid {
                    if c == chain {
                        if !exists {
                            assert(false);
                        }
                        assert(old_self.worker_has(c, x));
                    } else {
                        assert(old_self.worker_has(c, x));
                    }
                } else if c != chain {
                    assert(old_self.worker_has(c, x));
                }
            }
            assert forall|x: Seq<char>| #[trigger] self.sub_chain@.contains_key(x) <==> self.handler.actions_view().contains_key(x) by {
                if x != sid {
                    assert(old_self.sub_chain@.contains_key(x) <==> old_self.handler.actions_view().contains_key(x));
                }
            }
        }
        Ok(())
    }

    /// Unbinds the subscription `sub_id` of `user` in the handler and removes
    /// it from the worker that runs it, in one step.
    pub fn unsubscribe(&mut self, user: String, sub_id: String) -> (r: Result<(), RelayError>)
        requires
            old(self).wf(),
        ensures
            final(self).wf(),
            final(self).supported == old(self).supported,
            match old(self).handler.revoke_outcome(user@, sub_id@) {
                Some(e) => r == Err::<(), RelayError>(RelayError::Relayer(e)) && *final(self) == *old(self),
                None => {
                    &&& r == Ok::<(), RelayError>(())
                    &&& final(self).handler.actions_view() == old(self).handler.actions_view().remove(sub_id@)
                    &&& final(self).sub_chain@ == old(self).sub_chain@.remove(sub_id@)
                    &&& forall|c: usize| !#[trigger] final(self).worker_has(c, sub_id@)
                },
            },
    {
        let ghost old_self = *self;
        let ghost sid = sub_id@;
        let ghost uv = user@;
        let (chain, cmd) = match self.handler.revoke_subscription(user, sub_id) {
            Ok(x) => x,
            Err(e) => return Err(RelayError::Relayer(e)),
        };
        let ghost a = address_of_text(uv).unwrap();
        proof {
            assert(old_self.sub_chain@.contains_key(sid));
            let owner = old_self.handler.actions_view()[sid].user@;
            lemma_user_key_injective(owner, a);
        }
        let (u, subs) = match cmd {
            SubscriptionType::Revoke_Sub { user: u, subs } => (u, subs),
            _ => return Err(RelayError::Rpc(RpcTypeError::NoSubscriptionFound)),
        };
        let mut w = match self.workers.remove(&chain) {
            Some(w) => w,
            None => return Err(RelayError::Rpc(RpcTypeError::NoSubscriptionFound)),
        };
        match w.revoke(&u, &subs) {
            Ok(()) => {},
            Err(e) => return Err(RelayError::Rpc(e)),
        }
        self.workers.insert(chain, w);
        self.sub_chain.remove(subs.as_str());
        proof {
            assert forall|c: usize| #[trigger] self.workers@.contains_key(c) implies self.workers@[c].wf() && self.workers@[c].chain() == c by {
                if c != chain {
                    assert(old_self.workers@.contains_key(c));
                }
            }
            assert forall|x: Seq<char>| #[trigger] self.sub_chain@.contains_key(x) implies {
                let c = self.sub_chain@[x];
                &&& self.worker_has(c, x)
                &&& self.handler.actions_view()[x].template.chain_id == c
                &&& sub_owner(self.workers@[c].live_view()[x]) == self.handler.actions_view()[x].user@
            } by {
                assert(old_self.sub_chain@.contains_key(x));
                let c = old_self.sub_chain@[x];
                assert(old_self.worker_has(c, x));
            }
            assert forall|c: usize, x: Seq<char>| #[trigger] self.worker_has(c, x) implies
                self.sub_chain@.contains_key(x) && self.sub_chain@[x] == c by {
                assert(old_self.worker_has(c, x));
            }
            assert forall|x: Seq<char>| #[trigger] self.sub_chain@.contains_key(x) <==> self.handler.actions_view().contains_key(x) by {
                assert(old_self.sub_chain@.contains_key(x) <==> old_self.handler.actions_view().contains_key(x));
            }
            assert forall|c: usize| !#[trigger] self.worker_has(c, sid) by {
                if self.worker_has(c, sid) {
                    assert(old_self.worker_has(c, sid));
                }
            }
        }
        Ok(())
    }

    /// Carries a log that the worker of `chain` saw on `sub_id` through the
    /// handler: the result is the transaction to send, which goes back to
    /// the same chain, or nothing where the log is dropped.
    pub fn deliver(&self, chain: usize, sub_id: String, event: EventLog) -> (r: Result<Option<(usize, SubscriptionType)>, RelayError>)
        requires
            self.wf(),
        ensures
            if !self.workers@.contains_key(chain) {
                r == Err::<Option<(usize, SubscriptionType)>, RelayError>(RelayError::Rpc(RpcTypeError::ChainNotSupported))
            } else if !self.worker_has(chain, sub_id@) {
                r == Err::<Option<(usize, SubscriptionType)>, RelayError>(RelayError::Rpc(RpcTypeError::NoSubscriptionFound))
            } else {
                let entry = self.handler.actions_view()[sub_id@];
                let key = self.handler.relayers_view()[user_key(entry.user@)].signer;
                &&& self.handler.actions_view().contains_key(sub_id@)
                &&& entry.template.chain_id == chain
                &&& match build_plan(entry.template, event.topics@) {
                    Err(e) => r == Err::<Option<(usize, SubscriptionType)>, RelayError>(RelayError::Relayer(e)),
                    Ok(plan) => match r {
                        Ok(Some((c, SubscriptionType::Transaction { user, signer, tx }))) => {
                            &&& c == chain
                            &&& user@ == entry.user@
                            &&& signer == key
                            &&& tx.from == Some(key.address)
                            &&& tx.to@ == plan.0
                            &&& tx.chain_id == Some(chain as u64)
                            &&& tx.input@ == call_data((entry.template.function_name@, plan.1), plan.2)
                        },
                        _ => false,
                    },
                }
            },
    {
        let w = match self.workers.get(&chain) {
            Some(w) => w,
            None => return Err(RelayError::Rpc(RpcTypeError::ChainNotSupported)),
        };
        let ghost sid = sub_id@;
        let log = match w.handleevent(event, sub_id) {
            Ok(l) => l,
            Err(e) => return Err(RelayError::Rpc(e)),
        };
        proof {
            assert(self.worker_has(chain, sid));
            assert(self.sub_chain@.contains_key(sid));
        }
        match self.handler.handle_log(&log) {
            Ok(x) => Ok(x),
            Err(e) => Err(RelayError::Relayer(e)),
        }
    }
}

/// A subscription id is bound to an action exactly when it is live on a
/// chain's worker, and it is live on at most one chain.
pub proof fn law_bound_iff_live_on_one_chain(r: Relay, s: Seq<char>)
    requires
        r.wf(),
    ensures
        r.handler.actions_view().contains_key(s) <==> exists|c: usize| #[trigger] r.worker_has(c, s),
        forall|c1: usize, c2: usize| #[trigger] r.worker_has(c1, s) && #[trigger] r.worker_has(c2, s) ==> c1 == c2,
{
    if r.handler.actions_view().contains_key(s) {
        assert(r.sub_chain@.contains_key(s));
        assert(r.worker_has(r.sub_chain@[s], s));
    }
}

/// A log that a chain's worker sees on a bound subscription comes from the
/// chain that the subscription's template names.
pub proof fn law_logs_come_from_template_chain(r: Relay, c: usize, s: Seq<char>)
    requires
        r.wf(),
        r.worker_has(c, s),
        r.handler.actions_view().contains_key(s),
    ensures
        r.handler.actions_view()[s].template.chain_id == c,
{
}

/// The ids listed under a registered user are without repetition and are
/// exactly the bound subscriptions whose owner is that user.
pub proof fn law_user_subs_match_actions(h: RelayerHandler, a: Seq<u8>, s: Seq<char>)
    requires
        h.wf(),
        a.len() == 20,
        h.relayers_view().contains_key(user_key(a)),
    ensures
        ids_view(h.relayers_view()[user_key(a)].subs@).no_duplicates(),
        ids_view(h.relayers_view()[user_key(a)].subs@).contains(s) <==> (
            h.actions_view().contains_key(s) && h.actions_view()[s].user@ == a),
{
    if h.actions_view().contains_key(s) && h.owner_key(s) == user_key(a) {
        lemma_user_key_injective(h.actions_view()[s].user@, a);
    }
}

} // verus!
