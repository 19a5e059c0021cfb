use crate::address::{address_of_text, address_text, checksum_text, parse_address, Address};
use crate::error::{relayer_error_text, RelayerError};
use crate::hexfmt::{hex_text, prefixed_hex, prefixed_hex_text};
use crate::abi::call_data;
use crate::template::{build_plan, RawTransaction};
use crate::types::{RelayerCommand, RelayerKey, RpcTypes, SubscriptionType, TxRequest, UserUpdates};
use crate::tables::{
    action_table, actions_contains, actions_get, actions_insert, actions_new, actions_remove, logs_get,
    logs_insert, logs_new, relayer_table, relayers_contains, relayers_get, relayers_insert, relayers_new,
    update_table,
};
use dashmap::DashMap;
use vstd::prelude::*;

verus! {

/// A registered user: the relayer key and the ids of the user's bound
/// subscriptions.
#[derive(Clone)]
pub struct UserInfo {
    pub signer: RelayerKey,
    pub subs: Vec<String>,
}

/// A bound action: the subscription's owner and its template.
#[derive(Clone)]
pub struct ActionEntry {
    pub user: Address,
    pub template: RawTransaction,
}

/// Owner of user identity, relayer keys, action templates and update logs.
/// Users are stored under `user_key` of their address.
pub struct RelayerHandler {
    relayers: DashMap<String, UserInfo>,
    actions: DashMap<String, ActionEntry>,
    user_logs: DashMap<String, Vec<UserUpdates>>,
}

/// What the handler does with a command: answer the caller, or forward a
/// command to the worker of a chain, whose answer goes back to the caller.
pub enum HandlerStep {
    Reply(RpcTypes),
    Forward { chain_id: usize, command: SubscriptionType },
}

pub open spec fn is_failure(step: HandlerStep) -> bool {
    step matches HandlerStep::Reply(RpcTypes::Response { success, .. }) && !success
}

/// A failed reply whose message is the text of `e`.
pub open spec fn fails_with(step: HandlerStep, e: RelayerError) -> bool {
    step matches HandlerStep::Reply(RpcTypes::Response { success, message }) && !success
        && message@ == relayer_error_text(e)
}

/// Key under which a user's state is stored: `0x` and the lower-case hex of
/// the address.
pub open spec fn user_key(a: Seq<u8>) -> Seq<char> {
    prefixed_hex_text(a)
}

pub open spec fn ids_view(v: Seq<String>) -> Seq<Seq<char>> {
    v.map_values(|s: String| s@)
}

/// The address of the secp256k1 key with the given secret bytes.
pub uninterp spec fn key_address(secret: Seq<u8>) -> Seq<u8>;

/// Relies on alloy's `LocalSigner::random`: a fresh secp256k1 key drawn from
/// the system's randomness, returned as its secret bytes and the address
/// that `secret_key_to_address` derives from them.
#[verifier::external_body]
fn fresh_key() -> (r: RelayerKey)
    ensures
        r.address@ == key_address(r.secret@),
{
    let s = alloy::signers::local::PrivateKeySigner::random();
    RelayerKey { secret: s.to_bytes().0, address: s.address().0.0 }
}

pub(crate) fn key_of(a: &Address) -> (r: String)
    ensures
        r@ == user_key(a@),
{
    prefixed_hex(a)
}

/// The ids without `s`, in the same order.
pub(crate) fn without_id(v: &Vec<String>, s: &String) -> (r: Vec<String>)
    requires
        ids_view(v@).no_duplicates(),
    ensures
        ids_view(r@).no_duplicates(),
        forall|x: Seq<char>| ids_view(r@).contains(x) <==> (ids_view(v@).contains(x) && x != s@),
{
    let mut out: Vec<String> = Vec::new();
    let mut i: usize = 0;
    while i < v.len()
        invariant
            i <= v@.len(),
            ids_view(v@).no_duplicates(),
            ids_view(out@).no_duplicates(),
            forall|x: Seq<char>| ids_view(out@).contains(x) <==> (ids_view(v@.subrange(0, i as int)).contains(x) && x != s@),
        decreases v@.len() - i,
    {
        let ghost before = out@;
        let ghost pre = v@.subrange(0, i as int);
        assert(ids_view(v@.subrange(0, i as int + 1)) =~= ids_view(pre).push(v@[i as int]@));
        if v[i] != *s {
            assert(!ids_view(before).contains(v@[i as int]@)) by {
                if ids_view(before).contains(v@[i as int]@) {
                    let j = choose|j: int| 0 <= j < ids_view(pre).len() && ids_view(pre)[j] == v@[i as int]@;
                    assert(ids_view(v@)[j] == ids_view(v@)[i as int]);
                }
            }
            out.push(v[i].clone());
            assert(ids_view(out@) =~= ids_view(before).push(v@[i as int]@));
        }
        proof {
            let post = ids_view(v@.subrange(0, i as int + 1));
            let y = v@[i as int]@;
            assert forall|x: Seq<char>| ids_view(out@).contains(x) <==> (post.contains(x) && x != s@) by {
                lemma_contains_push(ids_view(pre), y, x);
                if y != s@ {
                    lemma_contains_push(ids_view(before), y, x);
                }
            }
        }
        i = i + 1;
    }
    assert(v@.subrange(0, v@.len() as int) =~= v@);
    out
}

pub(crate) proof fn lemma_contains_push(v: Seq<Seq<char>>, y: Seq<char>, x: Seq<char>)
    ensures
        v.push(y).contains(x) <==> (v.contains(x) || x == y),
{
    if v.contains(x) {
        let j = choose|j: int| 0 <= j < v.len() && v[j] == x;
        assert(v.push(y)[j] == x);
    }
    if x == y {
        assert(v.push(y)[v.len() as int] == x);
    }
    if v.push(y).contains(x) {
        let j = choose|j: int| 0 <= j < v.push(y).len() && v.push(y)[j] == x;
        if j < v.len() {
            assert(v[j] == x);
        }
    }
}

impl RelayerHandler {
    /// Registered users by user key.
    pub closed spec fn relayers_view(&self) -> Map<Seq<char>, UserInfo> {
        relayer_table(self.relayers)
    }

    /// Bound actions by subscription id.
    pub closed spec fn actions_view(&self) -> Map<Seq<char>, ActionEntry> {
        action_table(self.actions)
    }

    /// Update logs by user key.
    pub closed spec fn logs_view(&self) -> Map<Seq<char>, Vec<UserUpdates>> {
        update_table(self.user_logs)
    }

    /// Whether an action is bound to the subscription id.
    pub fn is_bound(&self, sub_id: &str) -> (r: bool)
        ensures
            r == self.actions_view().contains_key(sub_id@),
    {
        actions_contains(&self.actions, sub_id)
    }

    /// The subscription ids listed under the user with the address text
    /// `user`, or `None` where it names no registered user.
    pub fn subscription_ids(&self, user: &String) -> (r: Option<Vec<String>>)
        ensures
            match r {
                Some(ids) => address_of_text(user@) matches Some(a)
                    && self.relayers_view().contains_key(user_key(a))
                    && ids@ == self.relayers_view()[user_key(a)].subs@,
                None => !(address_of_text(user@) matches Some(a) && self.relayers_view().contains_key(user_key(a))),
            },
    {
        let a = match parse_address(user.as_str()) {
            Some(a) => a,
            None => return None,
        };
        match relayers_get(&self.relayers, key_of(&a).as_str()) {
            Some(info) => Some(info.subs),
            None => None,
        }
    }

    pub open spec fn owner_key(&self, s: Seq<char>) -> Seq<char> {
        user_key(self.actions_view()[s].user@)
    }

    /// The ids listed under each user are without repetition and are exactly
    /// the bound subscriptions that the user owns; every action's owner is
    /// registered; every registered user has an update log.
    pub open spec fn wf(&self) -> bool {
        &&& forall|k: Seq<char>| #[trigger] self.relayers_view().contains_key(k) ==> ids_view(self.relayers_view()[k].subs@).no_duplicates()
        &&& forall|k: Seq<char>, s: Seq<char>| #![trigger ids_view(self.relayers_view()[k].subs@).contains(s)]
            self.relayers_view().contains_key(k) ==> (ids_view(self.relayers_view()[k].subs@).contains(s) <==> (
                self.actions_view().contains_key(s) && self.owner_key(s) == k))
        &&& forall|s: Seq<char>| #[trigger] self.actions_view().contains_key(s) ==> self.relayers_view().contains_key(self.owner_key(s))
        &&& forall|k: Seq<char>| #[trigger] self.relayers_view().contains_key(k) ==> self.logs_view().contains_key(k)
    }

    pub fn new_handler() -> (r: Self)
        ensures
            r.wf(),
            r.relayers_view() == Map::<Seq<char>, UserInfo>::empty(),
            r.actions_view() == Map::<Seq<char>, ActionEntry>::empty(),
            r.logs_view() == Map::<Seq<char>, Vec<UserUpdates>>::empty(),
    {
        let r = RelayerHandler { relayers: relayers_new(), actions: actions_new(), user_logs: logs_new() };
        assert(r.relayers_view() =~= Map::<Seq<char>, UserInfo>::empty());
        assert(r.actions_view() =~= Map::<Seq<char>, ActionEntry>::empty());
        assert(r.logs_view() =~= Map::<Seq<char>, Vec<UserUpdates>>::empty());
        r
    }

    /// Registers `address` with the given key, unless the address text is
    /// invalid or already registered.
    pub fn new_relayer(&mut self, address: String, key: RelayerKey) -> (r: Result<Address, RelayerError>)
        requires
            old(self).wf(),
        ensures
            final(self).wf(),
            match address_of_text(address@) {
                None => r == Err::<Address, RelayerError>(RelayerError::InvalidAddress) && *final(self) == *old(self),
                Some(a) => if old(self).relayers_view().contains_key(user_key(a)) {
                    r == Err::<Address, RelayerError>(RelayerError::AlreadyRegistered) && *final(self) == *old(self)
                } else {
                    r == Ok::<Address, RelayerError>(key.address) && final(self).registered_from(*old(self), user_key(a), key)
                },
            },
    {
        let a = match parse_address(address.as_str()) {
            Some(a) => a,
            None => return Err(RelayerError::InvalidAddress),
        };
        let k = key_of(&a);
        if relayers_contains(&self.relayers, k.as_str()) {
            return Err(RelayerError::AlreadyRegistered);
        }
        let ghost old_self = *self;
        relayers_insert(&mut self.relayers, k.clone(), UserInfo { signer: key, subs: Vec::new() });
        match logs_get(&self.user_logs, k.as_str()) {
            Some(_) => {},
            None => logs_insert(&mut self.user_logs, k, Vec::new()),
        }
        proof {
            assert(ids_view(self.relayers_view()[k@].subs@) =~= Seq::<Seq<char>>::empty());
            assert forall|k2: Seq<char>, s: Seq<char>| #![trigger ids_view(self.relayers_view()[k2].subs@).contains(s)]
                self.relayers_view().contains_key(k2) implies (ids_view(self.relayers_view()[k2].subs@).contains(s) <==> (
                    self.actions_view().contains_key(s) && self.owner_key(s) == k2)) by {
                if k2 == k@ {
                    if self.actions_view().contains_key(s) {
                        assert(old_self.relayers_view().contains_key(old_self.owner_key(s)));
                    }
                } else {
                    assert(old_self.relayers_view().contains_key(k2));
                    assert(ids_view(old_self.relayers_view()[k2].subs@).contains(s) <==> (
                        old_self.actions_view().contains_key(s) && old_self.owner_key(s) == k2));
                }
            }
            assert forall|k2: Seq<char>| #[trigger] self.relayers_view().contains_key(k2) implies
                self.logs_view().contains_key(k2) && ids_view(self.relayers_view()[k2].subs@).no_duplicates() by {
                if k2 != k@ {
                    assert(old_self.relayers_view().contains_key(k2));
                }
            }
            assert forall|s: Seq<char>| #[trigger] self.actions_view().contains_key(s) implies
                self.relayers_view().contains_key(self.owner_key(s)) by {
                assert(old_self.actions_view().contains_key(s));
            }
        }
        Ok(key.address)
    }

    /// A change to the update logs alone that drops no user's log keeps the
    /// state well formed.
    proof fn lemma_wf_logs_only(old: Self, new: Self)
        requires
            old.wf(),
            new.relayers_view() == old.relayers_view(),
            new.actions_view() == old.actions_view(),
            forall|k: Seq<char>| old.logs_view().contains_key(k) ==> #[trigger] new.logs_view().contains_key(k),
        ensures
            new.wf(),
    {
        assert forall|k: Seq<char>| #[trigger] new.relayers_view().contains_key(k) implies
            new.logs_view().contains_key(k) && ids_view(new.relayers_view()[k].subs@).no_duplicates() by {
            assert(old.relayers_view().contains_key(k));
        }
        assert forall|k: Seq<char>, s: Seq<char>| #![trigger ids_view(new.relayers_view()[k].subs@).contains(s)]
            new.relayers_view().contains_key(k) implies (ids_view(new.relayers_view()[k].subs@).contains(s) <==> (
                new.actions_view().contains_key(s) && new.owner_key(s) == k)) by {
            assert(old.relayers_view().contains_key(k));
            assert(ids_view(old.relayers_view()[k].subs@).contains(s) <==> (
                old.actions_view().contains_key(s) && old.owner_key(s) == k));
        }
        assert forall|s: Seq<char>| #[trigger] new.actions_view().contains_key(s) implies
            new.relayers_view().contains_key(new.owner_key(s)) by {
            assert(old.actions_view().contains_key(s));
        }
    }

    /// The error that registering `user` meets, if any.
    pub open spec fn register_outcome(&self, user: Seq<char>) -> Option<RelayerError> {
        match address_of_text(user) {
            None => Some(RelayerError::InvalidAddress),
            Some(a) => if self.relayers_view().contains_key(user_key(a)) {
                Some(RelayerError::AlreadyRegistered)
            } else {
                None
            },
        }
    }

    /// The error that revoking `sub` for `user` meets, if any.
    pub open spec fn revoke_outcome(&self, user: Seq<char>, sub: Seq<char>) -> Option<RelayerError> {
        match address_of_text(user) {
            None => Some(RelayerError::InvalidAddress),
            Some(a) => if !self.relayers_view().contains_key(user_key(a)) {
                Some(RelayerError::NotAuthenticated)
            } else if !self.actions_view().contains_key(sub) || self.owner_key(sub) != user_key(a) {
                Some(RelayerError::NoSubscriptionFound)
            } else {
                None
            },
        }
    }

    /// The error that a command naming `user` meets when it needs the user
    /// registered, if any.
    pub open spec fn member_outcome(&self, user: Seq<char>) -> Option<RelayerError> {
        match address_of_text(user) {
            None => Some(RelayerError::InvalidAddress),
            Some(a) => if !self.relayers_view().contains_key(user_key(a)) {
                Some(RelayerError::NotAuthenticated)
            } else {
                None
            },
        }
    }

    /// The error that binding `sub` for `user` meets, if any.
    pub open spec fn define_outcome(&self, user: Seq<char>, sub: Seq<char>) -> Option<RelayerError> {
        match self.member_outcome(user) {
            Some(e) => Some(e),
            None => if self.actions_view().contains_key(sub) {
                Some(RelayerError::SubscriptionError)
            } else {
                None
            },
        }
    }

    /// The new state binds `template` to `sub` for the user with address
    /// `a`, with `sub` appended to the user's ids; nothing else changed.
    pub open spec fn defined_from(&self, old: Self, a: Seq<u8>, sub: Seq<char>, template: RawTransaction) -> bool {
        let k = user_key(a);
        &&& self.actions_view() == old.actions_view().insert(sub, self.actions_view()[sub])
        &&& self.actions_view()[sub].user@ == a
        &&& self.actions_view()[sub].template == template
        &&& self.relayers_view() == old.relayers_view().insert(k, self.relayers_view()[k])
        &&& self.relayers_view()[k].signer == old.relayers_view()[k].signer
        &&& ids_view(self.relayers_view()[k].subs@) == ids_view(old.relayers_view()[k].subs@).push(sub)
        &&& self.logs_view() == old.logs_view()
    }

    /// The new state no longer binds `sub`, and `sub` left the ids of the
    /// user with address `a`, who stays registered; nothing else changed.
    pub open spec fn revoked_from(&self, old: Self, a: Seq<u8>, sub: Seq<char>) -> bool {
        let k = user_key(a);
        &&& self.actions_view() == old.actions_view().remove(sub)
        &&& self.relayers_view() == old.relayers_view().insert(k, self.relayers_view()[k])
        &&& self.relayers_view()[k].signer == old.relayers_view()[k].signer
        &&& forall|x: Seq<char>| ids_view(self.relayers_view()[k].subs@).contains(x) <==> (
            ids_view(old.relayers_view()[k].subs@).contains(x) && x != sub)
        &&& self.logs_view() == old.logs_view()
    }

    /// The new state has emptied the update log of the user with address
    /// `a`; nothing else changed.
    pub open spec fn drained_from(&self, old: Self, a: Seq<u8>) -> bool {
        let k = user_key(a);
        &&& self.logs_view() == old.logs_view().insert(k, self.logs_view()[k])
        &&& self.logs_view()[k]@.len() == 0
        &&& self.relayers_view() == old.relayers_view()
        &&& self.actions_view() == old.actions_view()
    }

    /// The new state holds a fresh entry under `k` with `key` and no
    /// subscriptions, and an empty update log for it where it had none;
    /// nothing else changed.
    pub open spec fn registered_from(&self, old: Self, k: Seq<char>, key: RelayerKey) -> bool {
        &&& self.relayers_view() == old.relayers_view().insert(k, self.relayers_view()[k])
        &&& self.relayers_view()[k].signer == key
        &&& self.relayers_view()[k].subs@.len() == 0
        &&& self.actions_view() == old.actions_view()
        &&& old.logs_view().contains_key(k) ==> self.logs_view() == old.logs_view()
        &&& !old.logs_view().contains_key(k) ==> {
            &&& self.logs_view() == old.logs_view().insert(k, self.logs_view()[k])
            &&& self.logs_view()[k]@.len() == 0
        }
    }

    /// Registers `user` with a freshly generated key and returns the key's
    /// address.
    pub fn register(&mut self, user: String) -> (r: Result<Address, RelayerError>)
        requires
            old(self).wf(),
        ensures
            final(self).wf(),
            match old(self).register_outcome(user@) {
                Some(e) => r == Err::<Address, RelayerError>(e) && *final(self) == *old(self),
                None => {
                    let a = address_of_text(user@).unwrap();
                    exists|key: RelayerKey| r == Ok::<Address, RelayerError>(key.address)
                        && key.address@ == key_address(key.secret@)
                        && #[trigger] final(self).registered_from(*old(self), user_key(a), key)
                },
            },
    {
        let key = fresh_key();
        let r = self.new_relayer(user, key);
        proof {
            if r is Ok {
                assert(final(self).registered_from(*old(self), user_key(address_of_text(user@).unwrap()), key));
            }
        }
        r
    }

    /// The address of the relayer key of `user`.
    pub fn get_relayer_info(&self, user: String) -> (r: Result<Address, RelayerError>)
        ensures
            match address_of_text(user@) {
                None => r == Err::<Address, RelayerError>(RelayerError::InvalidAddress),
                Some(a) => if self.relayers_view().contains_key(user_key(a)) {
                    r == Ok::<Address, RelayerError>(self.relayers_view()[user_key(a)].signer.address)
                } else {
                    r == Err::<Address, RelayerError>(RelayerError::NotAuthenticated)
                },
            },
    {
        let a = match parse_address(user.as_str()) {
            Some(a) => a,
            None => return Err(RelayerError::InvalidAddress),
        };
        let k = key_of(&a);
        match relayers_get(&self.relayers, k.as_str()) {
            Some(info) => Ok(info.signer.address),
            None => Err(RelayerError::NotAuthenticated),
        }
    }

    /// Binds the template to the subscription id `sub_id` of `user`.
    pub fn define_relayer_action(&mut self, user: String, sub_id: String, template: RawTransaction) -> (r: Result<(), RelayerError>)
        requires
            old(self).wf(),
        ensures
            final(self).wf(),
            match address_of_text(user@) {
                None => r == Err::<(), RelayerError>(RelayerError::InvalidAddress) && *final(self) == *old(self),
                Some(a) => if !old(self).relayers_view().contains_key(user_key(a)) {
                    r == Err::<(), RelayerError>(RelayerError::NotAuthenticated) && *final(self) == *old(self)
                } else if old(self).actions_view().contains_key(sub_id@) {
                    r == Err::<(), RelayerError>(RelayerError::SubscriptionError) && *final(self) == *old(self)
                } else {
                    &&& r == Ok::<(), RelayerError>(())
                    &&& final(self).actions_view() == old(self).actions_view().insert(sub_id@, final(self).actions_view()[sub_id@])
                    &&& final(self).actions_view()[sub_id@].user@ == a
                    &&& final(self).actions_view()[sub_id@].template == template
                    &&& final(self).relayers_view() == old(self).relayers_view().insert(user_key(a), final(self).relayers_view()[user_key(a)])
                    &&& final(self).relayers_view()[user_key(a)].signer == old(self).relayers_view()[user_key(a)].signer
                    &&& ids_view(final(self).relayers_view()[user_key(a)].subs@)
                        == ids_view(old(self).relayers_view()[user_key(a)].subs@).push(sub_id@)
                    &&& final(self).logs_view() == old(self).logs_view()
                },
            },
    {
        let a = match parse_address(user.as_str()) {
            Some(a) => a,
            None => return Err(RelayerError::InvalidAddress),
        };
        let k = key_of(&a);
        let (signer, mut subs) = match relayers_get(&self.relayers, k.as_str()) {
            Some(info) => (info.signer, info.subs),
            None => return Err(RelayerError::NotAuthenticated),
        };
        if actions_contains(&self.actions, sub_id.as_str()) {
            return Err(RelayerError::SubscriptionError);
        }
        let ghost old_self = *self;
        let ghost old_ids = ids_view(subs@);
        subs.push(sub_id.clone());
        assert(ids_view(subs@) =~= old_ids.push(sub_id@));
        actions_insert(&mut self.actions, sub_id, ActionEntry { user: a, template });
        relayers_insert(&mut self.relayers, k, UserInfo { signer, subs });
        proof {
            let s0 = ids_view(subs@).last();
            assert(old_self.relayers_view().contains_key(k@));
            assert(ids_view(old_self.relayers_view()[k@].subs@) == old_ids);
            assert(!old_self.actions_view().contains_key(s0));
            assert(ids_view(old_self.relayers_view()[k@].subs@).contains(s0) ==> old_self.actions_view().contains_key(s0));
            assert(!old_ids.contains(s0));
            assert(ids_view(subs@).no_duplicates()) by {
                assert forall|i: int, j: int| 0 <= i < j < ids_view(subs@).len() implies ids_view(subs@)[i] != ids_view(subs@)[j] by {
                    if j == old_ids.len() {
                        assert(old_ids[i] == ids_view(subs@)[i]);
                    } else {
                        assert(old_ids[i] == ids_view(subs@)[i] && old_ids[j] == ids_view(subs@)[j]);
                    }
                }
            }
            assert forall|k2: Seq<char>, s: Seq<char>| #![trigger ids_view(self.relayers_view()[k2].subs@).contains(s)]
                self.relayers_view().contains_key(k2) implies (ids_view(self.relayers_view()[k2].subs@).contains(s) <==> (
                    self.actions_view().contains_key(s) && self.owner_key(s) == k2)) by {
                assert(old_self.relayers_view().contains_key(k2));
                assert(ids_view(old_self.relayers_view()[k2].subs@).contains(s) <==> (
                    old_self.actions_view().contains_key(s) && old_self.owner_key(s) == k2));
                if k2 == k@ {
                    lemma_contains_push(old_ids, s0, s);
                }
            }
            assert forall|k2: Seq<char>| #[trigger] self.relayers_view().contains_key(k2) implies ids_view(self.relayers_view()[k2].subs@).no_duplicates() by {
                assert(old_self.relayers_view().contains_key(k2));
            }
            assert forall|s: Seq<char>| #[trigger] self.actions_view().contains_key(s) implies self.relayers_view().contains_key(self.owner_key(s)) by {
                if s != s0 {
                    assert(old_self.actions_view().contains_key(s));
                }
            }
        }
        Ok(())
    }

    /// Unbinds the subscription `sub_id` of `user` and returns the chain that
    /// runs it with the command that removes it there.
    pub fn revoke_subscription(&mut self, user: String, sub_id: String) -> (r: Result<(usize, SubscriptionType), RelayerError>)
        requires
            old(self).wf(),
        ensures
            final(self).wf(),
            match old(self).revoke_outcome(user@, sub_id@) {
                Some(e) => r is Err && r->Err_0 == e && *final(self) == *old(self),
                None => {
                    let a = address_of_text(user@).unwrap();
                    &&& r is Ok
                    &&& r->Ok_0.0 == old(self).actions_view()[sub_id@].template.chain_id
                    &&& r->Ok_0.1 matches SubscriptionType::Revoke_Sub { user: u, subs } && u@ == a && subs@ == sub_id@
                    &&& final(self).actions_view() == old(self).actions_view().remove(sub_id@)
                    &&& final(self).relayers_view() == old(self).relayers_view().insert(user_key(a), final(self).relayers_view()[user_key(a)])
                    &&& final(self).relayers_view()[user_key(a)].signer == old(self).relayers_view()[user_key(a)].signer
                    &&& forall|x: Seq<char>| ids_view(final(self).relayers_view()[user_key(a)].subs@).contains(x) <==> (
                        ids_view(old(self).relayers_view()[user_key(a)].subs@).contains(x) && x != sub_id@)
                    &&& final(self).logs_view() == old(self).logs_view()
                },
            },
    {
        let a = match parse_address(user.as_str()) {
            Some(a) => a,
            None => return Err(RelayerError::InvalidAddress),
        };
        let k = key_of(&a);
        let (signer, subs) = match relayers_get(&self.relayers, k.as_str()) {
            Some(info) => (info.signer, without_id(&info.subs, &sub_id)),
            None => return Err(RelayerError::NotAuthenticated),
        };
        let chain_id = match actions_get(&self.actions, sub_id.as_str()) {
            Some(entry) => {
                if !crate::address::same_address(&entry.user, &a) {
                    proof {
                        if user_key(entry.user@) == user_key(a@) {
                            lemma_user_key_injective(entry.user@, a@);
                        }
                    }
                    return Err(RelayerError::NoSubscriptionFound);
                }
                entry.template.chain_id
            },
            None => return Err(RelayerError::NoSubscriptionFound),
        };
        let ghost old_self = *self;
        actions_remove(&mut self.actions, sub_id.as_str());
        relayers_insert(&mut self.relayers, k, UserInfo { signer, subs });
        proof {
            assert forall|k2: Seq<char>, s: Seq<char>| #![trigger ids_view(self.relayers_view()[k2].subs@).contains(s)]
                self.relayers_view().contains_key(k2) implies (ids_view(self.relayers_view()[k2].subs@).contains(s) <==> (
                    self.actions_view().contains_key(s) && self.owner_key(s) == k2)) by {
                assert(old_self.relayers_view().contains_key(k2));
                assert(ids_view(old_self.relayers_view()[k2].subs@).contains(s) <==> (
                    old_self.actions_view().contains_key(s) && old_self.owner_key(s) == k2));
            }
            assert forall|k2: Seq<char>| #[trigger] self.relayers_view().contains_key(k2) implies ids_view(self.relayers_view()[k2].subs@).no_duplicates() by {
                assert(old_self.relayers_view().contains_key(k2));
            }
            assert forall|s: Seq<char>| #[trigger] self.actions_view().contains_key(s) implies self.relayers_view().contains_key(self.owner_key(s)) by {
                assert(old_self.actions_view().contains_key(s));
            }
        }
        Ok((chain_id, SubscriptionType::Revoke_Sub { user: a, subs: sub_id }))
    }

    /// Hands back the update log of `user` and empties it.
    pub fn get_logs(&mut self, user: String) -> (r: Result<Vec<UserUpdates>, RelayerError>)
        requires
            old(self).wf(),
        ensures
            final(self).wf(),
            match address_of_text(user@) {
                None => r is Err && r->Err_0 == RelayerError::InvalidAddress && *final(self) == *old(self),
                Some(a) => if !old(self).relayers_view().contains_key(user_key(a)) {
                    r is Err && r->Err_0 == RelayerError::NotAuthenticated && *final(self) == *old(self)
                } else {
                    &&& r is Ok
                    &&& r->Ok_0@ == old(self).logs_view()[user_key(a)]@
                    &&& final(self).logs_view() == old(self).logs_view().insert(user_key(a), final(self).logs_view()[user_key(a)])
                    &&& final(self).logs_view()[user_key(a)]@.len() == 0
                    &&& final(self).relayers_view() == old(self).relayers_view()
                    &&& final(self).actions_view() == old(self).actions_view()
                },
            },
    {
        let a = match parse_address(user.as_str()) {
            Some(a) => a,
            None => return Err(RelayerError::InvalidAddress),
        };
        let k = key_of(&a);
        if !relayers_contains(&self.relayers, k.as_str()) {
            return Err(RelayerError::NotAuthenticated);
        }
        let logs = match logs_get(&self.user_logs, k.as_str()) {
            Some(v) => v,
            None => Vec::new(),
        };
        let ghost before = *self;
        logs_insert(&mut self.user_logs, k, Vec::new());
        proof {
            Self::lemma_wf_logs_only(before, *self);
        }
        Ok(logs)
    }

    /// Appends the receipt of a transaction sent from `from` on behalf of
    /// `user`. It is kept only where `user` is registered and `from` is the
    /// address of the user's relayer key; otherwise nothing changes.
    pub fn record_update(&mut self, user: &Address, from: &Address, update: UserUpdates)
        requires
            old(self).wf(),
        ensures
            final(self).wf(),
            final(self).relayers_view() == old(self).relayers_view(),
            final(self).actions_view() == old(self).actions_view(),
            if old(self).relayers_view().contains_key(user_key(user@))
                && old(self).relayers_view()[user_key(user@)].signer.address@ == from@ {
                &&& final(self).logs_view() == old(self).logs_view().insert(user_key(user@), final(self).logs_view()[user_key(user@)])
                &&& final(self).logs_view()[user_key(user@)]@ == old(self).logs_view()[user_key(user@)]@.push(update)
            } else {
                *final(self) == *old(self)
            },
    {
        let k = key_of(user);
        let signer = match relayers_get(&self.relayers, k.as_str()) {
            Some(info) => info.signer,
            None => return,
        };
        if !crate::address::same_address(&signer.address, from) {
            return;
        }
        let mut logs = match logs_get(&self.user_logs, k.as_str()) {
            Some(v) => v,
            None => Vec::new(),
        };
        logs.push(update);
        let ghost before = *self;
        logs_insert(&mut self.user_logs, k, logs);
        proof {
            Self::lemma_wf_logs_only(before, *self);
        }
    }

    /// Renders the transaction that a log on a bound subscription triggers:
    /// signed with the relayer key of the subscription's owner and sent to
    /// the template's chain. Logs of unbound subscriptions, or whose user is
    /// not the owner, are dropped.
    pub fn handle_log(&self, log: &RpcTypes) -> (r: Result<Option<(usize, SubscriptionType)>, RelayerError>)
        requires
            self.wf(),
        ensures
            match log {
                RpcTypes::UserLog { user, sub_id, log: ev } => {
                    if !self.actions_view().contains_key(sub_id@) || self.actions_view()[sub_id@].user@ != user@ {
                        r == Ok::<Option<(usize, SubscriptionType)>, RelayerError>(None)
                    } else {
                        let entry = self.actions_view()[sub_id@];
                        let key = self.relayers_view()[user_key(user@)].signer;
                        match build_plan(entry.template, ev.topics@) {
                            Err(e) => r == Err::<Option<(usize, SubscriptionType)>, RelayerError>(e),
                            Ok(plan) => match r {
                                Ok(Some((chain, SubscriptionType::Transaction { user: u, signer, tx }))) => {
                                    &&& chain == entry.template.chain_id
                                    &&& u == user
                                    &&& signer == key
                                    &&& tx.from == Some(key.address)
                                    &&& tx.to@ == plan.0
                                    &&& tx.chain_id == Some(entry.template.chain_id as u64)
                                    &&& tx.input@ == call_data((entry.template.function_name@, plan.1), plan.2)
                                },
                                _ => false,
                            },
                        }
                    }
                },
                _ => r == Ok::<Option<(usize, SubscriptionType)>, RelayerError>(None),
            },
    {
        match log {
            RpcTypes::UserLog { user, sub_id, log: ev } => {
                let entry = match actions_get(&self.actions, sub_id.as_str()) {
                    Some(e) => e,
                    None => return Ok(None),
                };
                if !crate::address::same_address(&entry.user, user) {
                    return Ok(None);
                }
                let k = key_of(user);
                assert(self.relayers_view().contains_key(self.owner_key(sub_id@)));
                let key = match relayers_get(&self.relayers, k.as_str()) {
                    Some(info) => info.signer,
                    None => return Ok(None),
                };
                let tx = match entry.template.build_transaction(ev) {
                    Ok(tx) => tx,
                    Err(e) => return Err(e),
                };
                let chain = entry.template.chain_id;
                let signed = TxRequest { to: tx.to, from: Some(key.address), chain_id: tx.chain_id, input: tx.input };
                Ok(Some((chain, SubscriptionType::Transaction { user: *user, signer: key, tx: signed })))
            },
            _ => Ok(None),
        }
    }

    fn failure(e: RelayerError) -> (r: HandlerStep)
        ensures
            is_failure(r),
            fails_with(r, e),
    {
        HandlerStep::Reply(RpcTypes::Response { success: false, message: e.message() })
    }

    /// Applies one command. Each command succeeds exactly when the operation
    /// of the same name does, and a failed command leaves the state as it was.
    pub fn handle_command(&mut self, command: RelayerCommand) -> (r: HandlerStep)
        requires
            old(self).wf(),
        ensures
            final(self).wf(),
            is_failure(r) ==> *final(self) == *old(self),
            match command {
                RelayerCommand::Register { user } => match old(self).register_outcome(user@) {
                    Some(e) => fails_with(r, e) && *final(self) == *old(self),
                    None => exists|key: RelayerKey| #[trigger] final(self).registered_from(
                        *old(self), user_key(address_of_text(user@).unwrap()), key)
                        && key.address@ == key_address(key.secret@)
                        && (r matches HandlerStep::Reply(RpcTypes::Response { success, message })
                        && success && message@ == checksum_text(key.address@)),
                },
                RelayerCommand::GetLogs { user } => match old(self).member_outcome(user@) {
                    Some(e) => fails_with(r, e) && *final(self) == *old(self),
                    None => {
                        let a = address_of_text(user@).unwrap();
                        &&& r matches HandlerStep::Reply(RpcTypes::Logs { logs })
                            && logs@ == old(self).logs_view()[user_key(a)]@
                        &&& final(self).drained_from(*old(self), a)
                    },
                },
                RelayerCommand::DefineRelayerAction { user, sub_id, chainid, target_address, ABI, function_name, Params } =>
                    match old(self).define_outcome(user@, sub_id@) {
                        Some(e) => fails_with(r, e) && *final(self) == *old(self),
                        None => {
                            &&& r matches HandlerStep::Reply(RpcTypes::Response { success, .. }) && success
                            &&& final(self).defined_from(*old(self), address_of_text(user@).unwrap(), sub_id@, (RawTransaction {
                                chain_id: chainid,
                                contract_address: target_address,
                                abi: ABI,
                                function_name: function_name,
                                params: Params,
                            }))
                        },
                    },
                RelayerCommand::Revoke_Subscription { user, sub_id } => match old(self).revoke_outcome(user@, sub_id@) {
                    Some(e) => fails_with(r, e) && *final(self) == *old(self),
                    None => {
                        let a = address_of_text(user@).unwrap();
                        &&& r matches HandlerStep::Forward { chain_id, command: SubscriptionType::Revoke_Sub { user: u, subs } }
                            && chain_id == old(self).actions_view()[sub_id@].template.chain_id
                            && u@ == a && subs@ == sub_id@
                        &&& final(self).revoked_from(*old(self), a, sub_id@)
                    },
                },
                RelayerCommand::Get_RalyerInfo { user } => *final(self) == *old(self) && match old(self).member_outcome(user@) {
                    Some(e) => fails_with(r, e),
                    None => r matches HandlerStep::Reply(RpcTypes::Response { success, message }) && success
                        && message@ == checksum_text(old(self).relayers_view()[
                            user_key(address_of_text(user@).unwrap())].signer.address@),
                },
            },
    {
        match command {
            RelayerCommand::Register { user } => match self.register(user) {
                Ok(addr) => HandlerStep::Reply(RpcTypes::Response { success: true, message: address_text(&addr) }),
                Err(e) => Self::failure(e),
            },
            RelayerCommand::GetLogs { user } => match self.get_logs(user) {
                Ok(logs) => HandlerStep::Reply(RpcTypes::Logs { logs }),
                Err(e) => Self::failure(e),
            },
            RelayerCommand::DefineRelayerAction { user, sub_id, chainid, target_address, ABI, function_name, Params } => {
                let template = RawTransaction::new(chainid, target_address, ABI, function_name, Params);
                match self.define_relayer_action(user, sub_id, template) {
                    Ok(()) => HandlerStep::Reply(RpcTypes::Response { success: true, message: "SuccessFully added".to_owned() }),
                    Err(e) => Self::failure(e),
                }
            },
            RelayerCommand::Revoke_Subscription { user, sub_id } => match self.revoke_subscription(user, sub_id) {
                Ok((chain_id, command)) => HandlerStep::Forward { chain_id, command },
                Err(e) => Self::failure(e),
            },
            RelayerCommand::Get_RalyerInfo { user } => match self.get_relayer_info(user) {
                Ok(addr) => HandlerStep::Reply(RpcTypes::Response { success: true, message: address_text(&addr) }),
                Err(e) => Self::failure(e),
            },
        }
    }
}

/// Distinct addresses are stored under distinct keys.
pub(crate) proof fn lemma_user_key_injective(a: Seq<u8>, b: Seq<u8>)
    requires
        a.len() == b.len(),
        user_key(a) == user_key(b),
    ensures
        a == b,
{
    let ha = hex_text(a);
    let hb = hex_text(b);
    assert(ha =~= user_key(a).skip(2));
    assert(hb =~= user_key(b).skip(2));
    crate::hexfmt::lemma_hex_text_injective(a, b);
}

/// Two registrations of one address, one after the other, starting from a
/// state where it is unregistered: the first succeeds and the second is
/// refused as already registered.
pub proof fn law_register_once(h0: RelayerHandler, h1: RelayerHandler, user: Seq<char>, key: RelayerKey)
    requires
        h0.wf(),
        address_of_text(user) is Some,
        h0.register_outcome(user) is None,
        h1.registered_from(h0, user_key(address_of_text(user).unwrap()), key),
    ensures
        h1.register_outcome(user) == Some(RelayerError::AlreadyRegistered),
{
    let k = user_key(address_of_text(user).unwrap());
    assert(h1.relayers_view().contains_key(k));
}

/// After a revoke of `sub` succeeds, the subscription is unbound: a log on it
/// triggers nothing, and a second revoke of it fails with
/// `NoSubscriptionFound`.
pub proof fn law_revoke_is_final(h0: RelayerHandler, h1: RelayerHandler, user: Seq<char>, sub: Seq<char>)
    requires
        h0.wf(),
        h0.revoke_outcome(user, sub) is None,
        h1.actions_view() == h0.actions_view().remove(sub),
        h1.relayers_view().dom() == h0.relayers_view().dom(),
    ensures
        !h1.actions_view().contains_key(sub),
        h1.revoke_outcome(user, sub) == Some(RelayerError::NoSubscriptionFound),
{
    let a = address_of_text(user).unwrap();
    assert(h0.relayers_view().contains_key(user_key(a)));
    assert(h1.relayers_view().contains_key(user_key(a)));
}

} // verus!
