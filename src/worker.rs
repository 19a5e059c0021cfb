use crate::address::{same_address, Address};
use crate::error::RpcTypeError;
use crate::handler::{ids_view, key_of, user_key};
use crate::types::{EventLog, RpcTypes, SubscriptionType};
use crate::tables::{
    id_table, ids_get, ids_insert, ids_new, live_contains, live_get, live_insert, live_new, live_remove,
    subscription_table,
};
use dashmap::DashMap;
use vstd::prelude::*;

verus! {

/// The bookkeeping of one chain's worker: the live subscriptions by id, the
/// ids of each user (stored under `user_key` of the address), and how many
/// subscriptions are live.
pub struct chainRpc {
    chainid: usize,
    subscriptions: DashMap<String, Vec<String>>,
    active_subscriptions: DashMap<String, SubscriptionType>,
    number_of_subsciptions: usize,
}

/// The user that a subscription command names.
pub open spec fn sub_owner(s: SubscriptionType) -> Seq<u8> {
    match s {
        SubscriptionType::Subscription { user, .. } => user@,
        SubscriptionType::Transaction { user, .. } => user@,
        SubscriptionType::Revoke_Sub { user, .. } => user@,
    }
}

/// Whether a command is a subscription on `chain`.
pub open spec fn serves(s: SubscriptionType, chain: usize) -> bool {
    s matches SubscriptionType::Subscription { chainid, .. } && chainid == chain
}

/// The ids listed under `k`, or none.
pub open spec fn listed_ids(ids: Map<Seq<char>, Vec<String>>, k: Seq<char>) -> Seq<Seq<char>> {
    if ids.contains_key(k) {
        ids_view(ids[k]@)
    } else {
        Seq::empty()
    }
}

fn owner_of(s: &SubscriptionType) -> (r: Address)
    ensures
        r@ == sub_owner(*s),
{
    match s {
        SubscriptionType::Subscription { user, .. } => *user,
        SubscriptionType::Transaction { user, .. } => *user,
        SubscriptionType::Revoke_Sub { user, .. } => *user,
    }
}

impl chainRpc {
    /// The chain this worker serves.
    pub closed spec fn chain(&self) -> usize {
        self.chainid
    }

    /// How many subscriptions are live.
    pub closed spec fn count(&self) -> usize {
        self.number_of_subsciptions
    }

    /// Live subscriptions by id.
    pub closed spec fn live_view(&self) -> Map<Seq<char>, SubscriptionType> {
        subscription_table(self.active_subscriptions)
    }

    /// Subscription ids by user key.
    pub closed spec fn ids_table(&self) -> Map<Seq<char>, Vec<String>> {
        id_table(self.subscriptions)
    }

    pub fn chain_id(&self) -> (r: usize)
        ensures
            r == self.chain(),
    {
        self.chainid
    }

    pub fn subscription_count(&self) -> (r: usize)
        ensures
            r == self.count(),
    {
        self.number_of_subsciptions
    }

    /// Whether the subscription id is live.
    pub fn is_live(&self, sub_id: &str) -> (r: bool)
        ensures
            r == self.live_view().contains_key(sub_id@),
    {
        live_contains(&self.active_subscriptions, sub_id)
    }

    /// The ids listed under the user with address `user`, if any.
    pub fn ids_of(&self, user: &Address) -> (r: Option<Vec<String>>)
        ensures
            match r {
                Some(ids) => self.ids_table().contains_key(user_key(user@)) && ids@ == self.ids_table()[user_key(user@)]@,
                None => !self.ids_table().contains_key(user_key(user@)),
            },
    {
        ids_get(&self.subscriptions, key_of(user).as_str())
    }

    pub open spec fn owner_key(&self, s: Seq<char>) -> Seq<char> {
        user_key(sub_owner(self.live_view()[s]))
    }

    /// Every live entry is a subscription on this worker's chain; the count is the number of live
    /// entries; each user's ids are without repetition and are exactly the
    /// live subscriptions of that user.
    pub open spec fn wf(&self) -> bool {
        &&& self.live_view().dom().finite()
        &&& self.count() == self.live_view().len()
        &&& forall|s: Seq<char>| #[trigger] self.live_view().contains_key(s)
            ==> serves(self.live_view()[s], self.chain())
        &&& forall|s: Seq<char>| #[trigger] self.live_view().contains_key(s)
            ==> self.ids_table().contains_key(self.owner_key(s))
        &&& forall|k: Seq<char>| #[trigger] self.ids_table().contains_key(k)
            ==> ids_view(self.ids_table()[k]@).no_duplicates()
        &&& forall|k: Seq<char>, s: Seq<char>| #![trigger ids_view(self.ids_table()[k]@).contains(s)]
            self.ids_table().contains_key(k) ==> (ids_view(self.ids_table()[k]@).contains(s) <==> (
                self.live_view().contains_key(s) && self.owner_key(s) == k))
    }

    /// A worker for `chainid` whose first subscription, installed under
    /// `sub_id`, is `subscription`.
    pub fn new(chainid: usize, sub_id: String, subscription: SubscriptionType) -> (r: Result<Self, RpcTypeError>)
        ensures
            match r {
                Ok(w) => {
                    &&& serves(subscription, chainid)
                    &&& w.wf()
                    &&& w.chain() == chainid
                    &&& w.live_view() == Map::<Seq<char>, SubscriptionType>::empty().insert(sub_id@, subscription)
                    &&& w.count() == 1
                },
                Err(e) => !serves(subscription, chainid) && e == RpcTypeError::SubscriptionError,
            },
    {
        let mut w = chainRpc {
            chainid,
            subscriptions: ids_new(),
            active_subscriptions: live_new(),
            number_of_subsciptions: 0,
        };
        assert(w.live_view() =~= Map::<Seq<char>, SubscriptionType>::empty());
        assert(w.ids_table() =~= Map::<Seq<char>, Vec<String>>::empty());
        match w.on_subscribed(subscription, sub_id) {
            Ok(()) => Ok(w),
            Err(e) => Err(e),
        }
    }

    /// Records a subscription that the provider installed under `sub_id`,
    /// appending the id to its user's list. A command that is not a
    /// subscription on this worker's chain, an id already live, or a full
    /// counter is refused and changes nothing.
    pub fn on_subscribed(&mut self, cmd: SubscriptionType, sub_id: String) -> (r: Result<(), RpcTypeError>)
        requires
            old(self).wf(),
        ensures
            final(self).wf(),
            final(self).chain() == old(self).chain(),
            match r {
                Ok(()) => {
                    let k = user_key(sub_owner(cmd));
                    &&& serves(cmd, old(self).chain())
                    &&& !old(self).live_view().contains_key(sub_id@)
                    &&& final(self).live_view() == old(self).live_view().insert(sub_id@, cmd)
                    &&& final(self).ids_table() == old(self).ids_table().insert(k, final(self).ids_table()[k])
                    &&& ids_view(final(self).ids_table()[k]@) == listed_ids(old(self).ids_table(), k).push(sub_id@)
                    &&& final(self).count() == old(self).count() + 1
                },
                Err(e) => {
                    &&& e == RpcTypeError::SubscriptionError
                    &&& *final(self) == *old(self)
                    &&& (!serves(cmd, old(self).chain()) || old(self).live_view().contains_key(sub_id@)
                        || old(self).count() == usize::MAX)
                },
            },
    {
        let is_sub = match &cmd {
            SubscriptionType::Subscription { chainid, .. } => *chainid == self.chainid,
            _ => false,
        };
        if !is_sub || live_contains(&self.active_subscriptions, sub_id.as_str())
            || self.number_of_subsciptions == usize::MAX {
            return Err(RpcTypeError::SubscriptionError);
        }
        let owner = owner_of(&cmd);
        let k = key_of(&owner);
        let ghost old_self = *self;
        let mut ids = match ids_get(&self.subscriptions, k.as_str()) {
            Some(v) => v,
            None => Vec::new(),
        };
        let ghost old_ids = ids_view(ids@);
        proof {
            if !old_self.ids_table().contains_key(k@) {
                assert(old_ids =~= Seq::<Seq<char>>::empty());
            }
        }
        ids.push(sub_id.clone());
        assert(ids_view(ids@) =~= old_ids.push(sub_id@));
        live_insert(&mut self.active_subscriptions, sub_id, cmd);
        ids_insert(&mut self.subscriptions, k, ids);
        self.number_of_subsciptions = self.number_of_subsciptions + 1;
        proof {
            let s0 = ids_view(ids@).last();
            assert(!old_ids.contains(s0)) by {
                if old_ids.contains(s0) {
                    let j = choose|j: int| 0 <= j < old_ids.len() && old_ids[j] == s0;
                    assert(ids_view(old_self.ids_table()[k@]@).contains(s0));
                }
            }
            assert(ids_view(ids@).no_duplicates()) by {
                assert forall|i: int, j: int| 0 <= i < j < ids_view(ids@).len() implies ids_view(ids@)[i] != ids_view(ids@)[j] by {
                    if j == old_ids.len() {
                        assert(old_ids[i] == ids_view(ids@)[i]);
                        assert(old_ids.contains(old_ids[i]));
                    } else {
                        assert(old_ids[i] == ids_view(ids@)[i] && old_ids[j] == ids_view(ids@)[j]);
                    }
                }
            }
            assert forall|k2: Seq<char>, s: Seq<char>| #![trigger ids_view(self.ids_table()[k2]@).contains(s)]
                self.ids_table().contains_key(k2) implies (ids_view(self.ids_table()[k2]@).contains(s) <==> (
                    self.live_view().contains_key(s) && self.owner_key(s) == k2)) by {
                if k2 == k@ {
                    crate::handler::lemma_contains_push(old_ids, s0, s);
                    if old_self.ids_table().contains_key(k2) {
                        assert(ids_view(old_self.ids_table()[k2]@).contains(s) <==> (
                            old_self.live_view().contains_key(s) && old_self.owner_key(s) == k2));
                    } else if old_self.live_view().contains_key(s) && old_self.owner_key(s) == k2 {
                        assert(old_self.ids_table().contains_key(old_self.owner_key(s)));
                    }
                } else {
                    assert(old_self.ids_table().contains_key(k2));
                    assert(ids_view(old_self.ids_table()[k2]@).contains(s) <==> (
                        old_self.live_view().contains_key(s) && old_self.owner_key(s) == k2));
                }
            }
            assert forall|k2: Seq<char>| #[trigger] self.ids_table().contains_key(k2) implies ids_view(self.ids_table()[k2]@).no_duplicates() by {
                if k2 != k@ {
                    assert(old_self.ids_table().contains_key(k2));
                }
            }
            assert forall|s: Seq<char>| #[trigger] self.live_view().contains_key(s) implies
                self.ids_table().contains_key(self.owner_key(s)) by {
                if s != sub_id@ {
                    assert(old_self.live_view().contains_key(s));
                }
            }
            assert forall|s: Seq<char>| #[trigger] self.live_view().contains_key(s) implies
                serves(self.live_view()[s], self.chain()) by {
                if s != sub_id@ {
                    assert(old_self.live_view().contains_key(s));
                }
            }
        }
        Ok(())
    }

    /// Forwards a log seen on `subid` as a log of the subscription's user.
    pub fn handleevent(&self, event: EventLog, subid: String) -> (r: Result<RpcTypes, RpcTypeError>)
        requires
            self.wf(),
        ensures
            match r {
                Ok(RpcTypes::UserLog { user, sub_id, log }) => {
                    &&& self.live_view().contains_key(subid@)
                    &&& user@ == sub_owner(self.live_view()[subid@])
                    &&& sub_id@ == subid@
                    &&& log == event
                },
                Ok(_) => false,
                Err(e) => !self.live_view().contains_key(subid@) && e == RpcTypeError::NoSubscriptionFound,
            },
    {
        match live_get(&self.active_subscriptions, subid.as_str()) {
            Some(sub) => {
                let user = owner_of(&sub);
                Ok(RpcTypes::UserLog { user, sub_id: subid, log: event })
            },
            None => Err(RpcTypeError::NoSubscriptionFound),
        }
    }

    /// Removes the live subscription `subs` of `user`. Revoking is scoped to
    /// the user, as the by-user index is: an id that is not live, or that
    /// belongs to another user, is refused and changes nothing.
    pub fn revoke(&mut self, user: &Address, subs: &String) -> (r: Result<(), RpcTypeError>)
        requires
            old(self).wf(),
        ensures
            final(self).wf(),
            final(self).chain() == old(self).chain(),
            match r {
                Ok(()) => {
                    &&& old(self).live_view().contains_key(subs@)
                    &&& sub_owner(old(self).live_view()[subs@]) == user@
                    &&& final(self).live_view() == old(self).live_view().remove(subs@)
                    &&& final(self).count() == old(self).count() - 1
                    &&& final(self).ids_table() == old(self).ids_table().insert(user_key(user@), final(self).ids_table()[user_key(user@)])
                    &&& forall|x: Seq<char>| ids_view(final(self).ids_table()[user_key(user@)]@).contains(x) <==> (
                        listed_ids(old(self).ids_table(), user_key(user@)).contains(x) && x != subs@)
                },
                Err(e) => {
                    &&& e == RpcTypeError::NoSubscriptionFound
                    &&& *final(self) == *old(self)
                    &&& (!old(self).live_view().contains_key(subs@)
                        || sub_owner(old(self).live_view()[subs@]) != user@)
                },
            },
    {
        let owner = match live_get(&self.active_subscriptions, subs.as_str()) {
            Some(sub) => owner_of(&sub),
            None => return Err(RpcTypeError::NoSubscriptionFound),
        };
        if !same_address(&owner, user) {
            return Err(RpcTypeError::NoSubscriptionFound);
        }
        let k = key_of(user);
        let ghost old_self = *self;
        assert(self.ids_table().contains_key(self.owner_key(subs@)));
        let ids = match ids_get(&self.subscriptions, k.as_str()) {
            Some(v) => crate::handler::without_id(&v, subs),
            None => Vec::new(),
        };
        live_remove(&mut self.active_subscriptions, subs.as_str());
        ids_insert(&mut self.subscriptions, k, ids);
        self.number_of_subsciptions = self.number_of_subsciptions - 1;
        proof {
            assert forall|k2: Seq<char>, s: Seq<char>| #![trigger ids_view(self.ids_table()[k2]@).contains(s)]
                self.ids_table().contains_key(k2) implies (ids_view(self.ids_table()[k2]@).contains(s) <==> (
                    self.live_view().contains_key(s) && self.owner_key(s) == k2)) by {
                assert(old_self.ids_table().contains_key(k2));
                assert(ids_view(old_self.ids_table()[k2]@).contains(s) <==> (
                    old_self.live_view().contains_key(s) && old_self.owner_key(s) == k2));
            }
            assert forall|k2: Seq<char>| #[trigger] self.ids_table().contains_key(k2) implies ids_view(self.ids_table()[k2]@).no_duplicates() by {
                assert(old_self.ids_table().contains_key(k2));
            }
            assert forall|s: Seq<char>| #[trigger] self.live_view().contains_key(s) implies
                self.ids_table().contains_key(self.owner_key(s)) by {
                assert(old_self.live_view().contains_key(s));
            }
            assert forall|s: Seq<char>| #[trigger] self.live_view().contains_key(s) implies
                serves(self.live_view()[s], self.chain()) by {
                assert(old_self.live_view().contains_key(s));
            }
        }
        Ok(())
    }
}

} // verus!
