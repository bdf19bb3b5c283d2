//! Subscriptions of clients to parameter updates, by parameter name.
//!
//! The server tells its listener when a parameter gains its first subscriber, and when it loses
//! its last one.

use vstd::prelude::*;

use crate::ids::ClientId;
use crate::websocket::protocol::{copy_parameter, same_parameter, views, Parameter};

verus! {

/// Which clients are subscribed to updates of which parameters.
pub struct ParameterSubscriptions {
    /// Pairs of a parameter name and a subscribed client; no pair occurs twice.
    pairs: Vec<(String, ClientId)>,
}

/// The names, in order, that gain their first subscriber when a client subscribes to `names`
/// one after another, starting from `subs`: each name that had no subscriber, at its first
/// occurrence.
pub open spec fn newly_subscribed(subs: ParameterSubscriptions, names: Seq<Seq<char>>) -> Seq<Seq<char>>
    decreases names.len(),
{
    if names.len() == 0 {
        Seq::empty()
    } else {
        let rest = newly_subscribed(subs, names.drop_last());
        let n = names.last();
        if !subs.has_subscribers(n) && !names.drop_last().contains(n) {
            rest.push(n)
        } else {
            rest
        }
    }
}

/// The names, in order, that lose their last subscriber when `client` unsubscribes from `names`
/// one after another, starting from `subs`: each name of which `client` was the only
/// subscriber, at its first occurrence.
pub open spec fn newly_unsubscribed(subs: ParameterSubscriptions, client: ClientId, names: Seq<Seq<char>>) -> Seq<Seq<char>>
    decreases names.len(),
{
    if names.len() == 0 {
        Seq::empty()
    } else {
        let rest = newly_unsubscribed(subs, client, names.drop_last());
        let n = names.last();
        if subs.subscribed(n, client) && subs.sole_subscriber(n, client) && !names.drop_last().contains(n) {
            rest.push(n)
        } else {
            rest
        }
    }
}

impl ParameterSubscriptions {
    /// The representation is well formed: no pair occurs twice.
    pub closed spec fn wf(self) -> bool {
        forall|i: int, j: int|
            0 <= i < j < self.pairs@.len() ==> !(#[trigger] self.pairs@[i].0@ == #[trigger] self.pairs@[j].0@
                && self.pairs@[i].1 == self.pairs@[j].1)
    }

    /// `client` is subscribed to updates of the parameter `name`.
    pub closed spec fn subscribed(self, name: Seq<char>, client: ClientId) -> bool {
        exists|i: int| 0 <= i < self.pairs@.len() && #[trigger] self.pairs@[i].0@ == name && self.pairs@[i].1 == client
    }

    /// `client` is subscribed to updates of `name` by one of the first `i` pairs.
    closed spec fn subscribed_before(self, name: Seq<char>, client: ClientId, i: int) -> bool {
        exists|k: int| 0 <= k < i && #[trigger] self.pairs@[k].0@ == name && self.pairs@[k].1 == client
    }

    /// Some client is subscribed to updates of the parameter `name`.
    pub open spec fn has_subscribers(self, name: Seq<char>) -> bool {
        exists|c: ClientId| self.subscribed(name, c)
    }

    /// No client but `client` is subscribed to updates of the parameter `name`.
    pub open spec fn sole_subscriber(self, name: Seq<char>, client: ClientId) -> bool {
        forall|c: ClientId| #[trigger] self.subscribed(name, c) ==> c == client
    }

    /// Creates a table without subscriptions.
    pub fn new() -> (s: ParameterSubscriptions)
        ensures
            s.wf(),
            forall|n: Seq<char>, c: ClientId| !s.subscribed(n, c),
    {
        ParameterSubscriptions { pairs: Vec::new() }
    }

    /// Returns the position of the pair of `name` and `client`, if it is there.
    fn find(&self, name: &String, client: ClientId) -> (r: Option<usize>)
        ensures
            r matches Some(i) ==> i < self.pairs@.len() && self.pairs@[i as int].0@ == name@
                && self.pairs@[i as int].1 == client,
            r is None ==> !self.subscribed(name@, client),
    {
        let mut i: usize = 0;
        while i < self.pairs.len()
            invariant
                i <= self.pairs@.len(),
                forall|k: int| 0 <= k < i ==> !(#[trigger] self.pairs@[k].0@ == name@ && self.pairs@[k].1 == client),
            decreases self.pairs@.len() - i,
        {
            if self.pairs[i].1 == client && self.pairs[i].0 == *name {
                return Some(i);
            }
            i = i + 1;
        }
        None
    }

    /// Returns whether some client is subscribed to updates of `name`.
    pub fn any_subscriber(&self, name: &String) -> (r: bool)
        ensures
            r == self.has_subscribers(name@),
    {
        let mut i: usize = 0;
        while i < self.pairs.len()
            invariant
                i <= self.pairs@.len(),
                forall|k: int| 0 <= k < i ==> #[trigger] self.pairs@[k].0@ != name@,
            decreases self.pairs@.len() - i,
        {
            if self.pairs[i].0 == *name {
                assert(self.subscribed(name@, self.pairs@[i as int].1));
                return true;
            }
            i = i + 1;
        }
        false
    }

    /// Returns whether `client` is subscribed to updates of `name`.
    pub fn is_subscribed(&self, name: &String, client: ClientId) -> (r: bool)
        ensures
            r == self.subscribed(name@, client),
    {
        self.find(name, client).is_some()
    }

    /// Appending a pair subscribes its client to its name, and changes nothing else.
    proof fn lemma_push_pair(prev: Self, cur: Self, name: Seq<char>, client: ClientId)
        requires
            prev.wf(),
            !prev.subscribed(name, client),
            cur.pairs@.len() == prev.pairs@.len() + 1,
            forall|k: int| 0 <= k < prev.pairs@.len() ==> #[trigger] cur.pairs@[k] == prev.pairs@[k],
            cur.pairs@.last().0@ == name,
            cur.pairs@.last().1 == client,
        ensures
            cur.wf(),
            forall|n: Seq<char>, c: ClientId| #[trigger] cur.subscribed(n, c) <==> prev.subscribed(n, c)
                || (n == name && c == client),
    {
        let last = prev.pairs@.len() as int;
        assert forall|n: Seq<char>, c: ClientId| #[trigger] cur.subscribed(n, c) <==> prev.subscribed(n, c)
            || (n == name && c == client) by {
            if cur.subscribed(n, c) {
                let k = choose|k: int| 0 <= k < cur.pairs@.len() && #[trigger] cur.pairs@[k].0@ == n && cur.pairs@[k].1 == c;
                if k < last {
                    assert(prev.pairs@[k].0@ == n);
                }
            }
            if prev.subscribed(n, c) {
                let k = choose|k: int| 0 <= k < prev.pairs@.len() && #[trigger] prev.pairs@[k].0@ == n && prev.pairs@[k].1 == c;
                assert(cur.pairs@[k].0@ == n);
            }
            if n == name && c == client {
                assert(cur.pairs@[last].0@ == n);
            }
        }
        assert forall|i: int, j: int|
            0 <= i < j < cur.pairs@.len() implies !(#[trigger] cur.pairs@[i].0@ == #[trigger] cur.pairs@[j].0@
                && cur.pairs@[i].1 == cur.pairs@[j].1) by {
            if j == last && cur.pairs@[i].0@ == cur.pairs@[j].0@ && cur.pairs@[i].1 == cur.pairs@[j].1 {
                assert(prev.pairs@[i].0@ == name);
            } else if j < last {
                assert(prev.pairs@[i] == cur.pairs@[i]);
                assert(prev.pairs@[j] == cur.pairs@[j]);
            }
        }
    }

    /// Subscribes `client` to updates of the parameters `names`, and returns, in order and once
    /// each, the names that had no subscriber before.
    pub fn subscribe(&mut self, client: ClientId, names: &Vec<String>) -> (new_names: Vec<String>)
        requires
            old(self).wf(),
        ensures
            final(self).wf(),
            forall|n: Seq<char>, c: ClientId| #[trigger] final(self).subscribed(n, c) <==> old(self).subscribed(n, c)
                || (c == client && views(names@).contains(n)),
            views(new_names@) == newly_subscribed(*old(self), views(names@)),
    {
        let ghost start = *self;
        let ghost all = views(names@);
        let mut new_names: Vec<String> = Vec::new();
        let mut i: usize = 0;
        while i < names.len()
            invariant
                i <= names@.len(),
                all == views(names@),
                self.wf(),
                forall|n: Seq<char>, c: ClientId| #[trigger] self.subscribed(n, c) <==> start.subscribed(n, c)
                    || (c == client && all.take(i as int).contains(n)),
                views(new_names@) == newly_subscribed(start, all.take(i as int)),
            decreases names@.len() - i,
        {
            let name = &names[i];
            assert(all.take(i + 1).drop_last() =~= all.take(i as int));
            assert(all.take(i + 1).last() == name@);
            let had = self.any_subscriber(name);
            proof {
                if all.take(i as int).contains(name@) {
                    assert(self.subscribed(name@, client));
                }
                if start.has_subscribers(name@) {
                    let c = choose|c: ClientId| start.subscribed(name@, c);
                    assert(self.subscribed(name@, c));
                }
            }
            if !had {
                let ghost before = new_names@;
                new_names.push(name.clone());
                assert(views(new_names@) =~= views(before).push(name@));
            }
            proof {
                lemma_take_contains(all, i as int);
            }
            if self.find(name, client).is_none() {
                let ghost prev = *self;
                self.pairs.push((name.clone(), client));
                proof {
                    Self::lemma_push_pair(prev, *self, name@, client);
                }
            } else {
                assert(self.subscribed(name@, client));
            }
            i = i + 1;
        }
        assert(all.take(names@.len() as int) =~= all);
        new_names
    }

    /// Removing the pair at position `idx` unsubscribes its client from its name, and changes
    /// nothing else.
    proof fn lemma_remove_pair(prev: Self, cur: Self, idx: int)
        requires
            prev.wf(),
            0 <= idx < prev.pairs@.len(),
            cur.pairs@ == prev.pairs@.remove(idx),
        ensures
            cur.wf(),
            forall|n: Seq<char>, c: ClientId| #[trigger] cur.subscribed(n, c) <==> prev.subscribed(n, c)
                && !(n == prev.pairs@[idx].0@ && c == prev.pairs@[idx].1),
    {
        let name = prev.pairs@[idx].0@;
        let client = prev.pairs@[idx].1;
        assert forall|n: Seq<char>, c: ClientId| #[trigger] cur.subscribed(n, c) <==> prev.subscribed(n, c)
            && !(n == name && c == client) by {
            if cur.subscribed(n, c) {
                let k = choose|k: int| 0 <= k < cur.pairs@.len() && #[trigger] cur.pairs@[k].0@ == n && cur.pairs@[k].1 == c;
                if k < idx {
                    assert(prev.pairs@[k].0@ == n);
                    assert(prev.pairs@[k] == cur.pairs@[k]);
                    if n == name && c == client {
                        assert(prev.pairs@[k].0@ == prev.pairs@[idx].0@);
                    }
                } else {
                    assert(prev.pairs@[k + 1] == cur.pairs@[k]);
                    assert(prev.pairs@[k + 1].0@ == n);
                    if n == name && c == client {
                        assert(prev.pairs@[idx].0@ == prev.pairs@[k + 1].0@);
                    }
                }
            }
            if prev.subscribed(n, c) && !(n == name && c == client) {
                let k = choose|k: int| 0 <= k < prev.pairs@.len() && #[trigger] prev.pairs@[k].0@ == n && prev.pairs@[k].1 == c;
                if k < idx {
                    assert(cur.pairs@[k].0@ == n);
                } else {
                    assert(k != idx);
                    assert(cur.pairs@[k - 1].0@ == n);
                }
            }
        }
        assert forall|i: int, j: int|
            0 <= i < j < cur.pairs@.len() implies !(#[trigger] cur.pairs@[i].0@ == #[trigger] cur.pairs@[j].0@
                && cur.pairs@[i].1 == cur.pairs@[j].1) by {
            let pi = if i < idx { i } else { i + 1 };
            let pj = if j < idx { j } else { j + 1 };
            assert(cur.pairs@[i] == prev.pairs@[pi]);
            assert(cur.pairs@[j] == prev.pairs@[pj]);
            assert(prev.pairs@[pi].0@ == cur.pairs@[i].0@);
            assert(prev.pairs@[pj].0@ == cur.pairs@[j].0@);
        }
    }

    /// Unsubscribes `client` from updates of the parameters `names`, and returns, in order and
    /// once each, the names that no longer have a subscriber.
    pub fn unsubscribe(&mut self, client: ClientId, names: &Vec<String>) -> (old_names: Vec<String>)
        requires
            old(self).wf(),
        ensures
            final(self).wf(),
            forall|n: Seq<char>, c: ClientId| #[trigger] final(self).subscribed(n, c) <==> old(self).subscribed(n, c)
                && !(c == client && views(names@).contains(n)),
            views(old_names@) == newly_unsubscribed(*old(self), client, views(names@)),
    {
        let ghost start = *self;
        let ghost all = views(names@);
        let mut old_names: Vec<String> = Vec::new();
        let mut i: usize = 0;
        while i < names.len()
            invariant
                i <= names@.len(),
                all == views(names@),
                self.wf(),
                forall|n: Seq<char>, c: ClientId| #[trigger] self.subscribed(n, c) <==> start.subscribed(n, c)
                    && !(c == client && all.take(i as int).contains(n)),
                views(old_names@) == newly_unsubscribed(start, client, all.take(i as int)),
            decreases names@.len() - i,
        {
            let name = &names[i];
            assert(all.take(i + 1).drop_last() =~= all.take(i as int));
            assert(all.take(i + 1).last() == name@);
            proof {
                lemma_take_contains(all, i as int);
            }
            match self.find(name, client) {
                Some(idx) => {
                    assert(self.pairs@[idx as int].0@ == name@);
                    assert(self.subscribed(name@, client));
                    let ghost prev = *self;
                    self.pairs.remove(idx);
                    proof {
                        Self::lemma_remove_pair(prev, *self, idx as int);
                    }
                    let remaining = self.any_subscriber(name);
                    proof {
                        assert(start.subscribed(name@, client));
                        assert(!all.take(i as int).contains(name@));
                        if remaining {
                            let c = choose|c: ClientId| self.subscribed(name@, c);
                            assert(start.subscribed(name@, c) && c != client);
                        } else {
                            assert forall|c: ClientId| #[trigger] start.subscribed(name@, c) implies c == client by {
                                if c != client {
                                    assert(self.subscribed(name@, c));
                                }
                            }
                        }
                    }
                    if !remaining {
                        let ghost before = old_names@;
                        old_names.push(name.clone());
                        assert(views(old_names@) =~= views(before).push(name@));
                    }
                },
                None => {},
            }
            i = i + 1;
        }
        assert(all.take(names@.len() as int) =~= all);
        old_names
    }

    /// Unsubscribes `client` from updates of every parameter, and returns, once each, the names
    /// that no longer have a subscriber.
    pub fn unsubscribe_all(&mut self, client: ClientId) -> (old_names: Vec<String>)
        requires
            old(self).wf(),
        ensures
            final(self).wf(),
            forall|n: Seq<char>, c: ClientId| #[trigger] final(self).subscribed(n, c) <==> old(self).subscribed(n, c)
                && c != client,
            forall|n: Seq<char>| #[trigger] views(old_names@).contains(n) <==> old(self).subscribed(n, client)
                && old(self).sole_subscriber(n, client),
            views(old_names@).no_duplicates(),
    {
        let ghost start = *self;
        // Gather, once each, the names that `client` is subscribed to.
        let mut names: Vec<String> = Vec::new();
        let mut i: usize = 0;
        while i < self.pairs.len()
            invariant
                *self == start,
                self.wf(),
                i <= self.pairs@.len(),
                forall|n: Seq<char>| #[trigger] views(names@).contains(n) <==> self.subscribed_before(n, client, i as int),
                views(names@).no_duplicates(),
            decreases self.pairs@.len() - i,
        {
            let ghost before = names@;
            if self.pairs[i].1 == client {
                let ghost n0 = self.pairs@[i as int].0@;
                proof {
                    if views(before).contains(n0) {
                        let k = choose|k: int| 0 <= k < i && #[trigger] self.pairs@[k].0@ == n0 && self.pairs@[k].1 == client;
                        assert(self.pairs@[k].0@ == self.pairs@[i as int].0@);
                    }
                }
                names.push(self.pairs[i].0.clone());
                proof {
                    assert(views(names@) =~= views(before).push(n0));
                    lemma_push_contains(views(before), n0);
                    assert forall|n: Seq<char>| #[trigger] views(names@).contains(n) <==> self.subscribed_before(n, client, i + 1) by {
                        if n == n0 {
                            assert(self.pairs@[i as int].0@ == n);
                        }
                        if self.subscribed_before(n, client, i + 1) && n != n0 {
                            let k = choose|k: int| 0 <= k < i + 1 && #[trigger] self.pairs@[k].0@ == n && self.pairs@[k].1 == client;
                            assert(self.subscribed_before(n, client, i as int));
                        }
                        if self.subscribed_before(n, client, i as int) {
                            let k = choose|k: int| 0 <= k < i && #[trigger] self.pairs@[k].0@ == n && self.pairs@[k].1 == client;
                            assert(self.subscribed_before(n, client, i + 1));
                        }
                    }
                }
            } else {
                proof {
                    assert forall|n: Seq<char>| #[trigger] views(names@).contains(n) <==> self.subscribed_before(n, client, i + 1) by {
                        if self.subscribed_before(n, client, i + 1) {
                            let k = choose|k: int| 0 <= k < i + 1 && #[trigger] self.pairs@[k].0@ == n && self.pairs@[k].1 == client;
                            assert(self.subscribed_before(n, client, i as int));
                        }
                        if self.subscribed_before(n, client, i as int) {
                            let k = choose|k: int| 0 <= k < i && #[trigger] self.pairs@[k].0@ == n && self.pairs@[k].1 == client;
                            assert(self.subscribed_before(n, client, i + 1));
                        }
                    }
                }
            }
            i = i + 1;
        }
        proof {
            assert forall|n: Seq<char>| #[trigger] views(names@).contains(n) <==> start.subscribed(n, client) by {
                if start.subscribed(n, client) {
                    let k = choose|k: int| 0 <= k < start.pairs@.len() && #[trigger] start.pairs@[k].0@ == n && start.pairs@[k].1 == client;
                    assert(self.subscribed_before(n, client, i as int));
                }
                if self.subscribed_before(n, client, i as int) {
                    let k = choose|k: int| 0 <= k < i && #[trigger] self.pairs@[k].0@ == n && self.pairs@[k].1 == client;
                    assert(start.subscribed(n, client));
                }
            }
            last_subscriber_names(start, client, views(names@));
        }
        self.unsubscribe(client, &names)
    }

    /// Returns the parameters, in order, whose names `client` is subscribed to.
    pub fn filter_for(&self, parameters: &Vec<Parameter>, client: ClientId) -> (r: Vec<Parameter>)
        ensures
            forall|j: int| 0 <= j < r@.len() ==> self.subscribed(#[trigger] r@[j].name@, client),
            forall|i: int|
                0 <= i < parameters@.len() && self.subscribed(#[trigger] parameters@[i].name@, client) ==> exists|j: int|
                    0 <= j < r@.len() && same_parameter(parameters@[i], r@[j]),
            r@.len() == subscribed_positions(*self, parameters@, client).len(),
            forall|k: int| 0 <= k < r@.len() ==> #[trigger] same_parameter(
                parameters@[subscribed_positions(*self, parameters@, client)[k]],
                r@[k],
            ),
    {
        let mut r: Vec<Parameter> = Vec::new();
        let mut i: usize = 0;
        while i < parameters.len()
            invariant
                i <= parameters@.len(),
                r@.len() == subscribed_positions(*self, parameters@.take(i as int), client).len(),
                forall|k: int| 0 <= k < r@.len() ==> #[trigger] same_parameter(
                    parameters@[subscribed_positions(*self, parameters@.take(i as int), client)[k]],
                    r@[k],
                ),
            decreases parameters@.len() - i,
        {
            let ghost before = r@;
            let ghost prefix = parameters@.take(i as int);
            let ghost next = parameters@.take(i + 1);
            assert(next.drop_last() =~= prefix);
            if self.is_subscribed(&parameters[i].name, client) {
                r.push(copy_parameter(&parameters[i]));
                proof {
                    assert forall|k: int| 0 <= k < r@.len() implies #[trigger] same_parameter(
                        parameters@[subscribed_positions(*self, next, client)[k]],
                        r@[k],
                    ) by {
                        if k < before.len() {
                            assert(same_parameter(parameters@[subscribed_positions(*self, prefix, client)[k]], before[k]));
                        }
                    }
                }
            } else {
                proof {
                    assert forall|k: int| 0 <= k < r@.len() implies #[trigger] same_parameter(
                        parameters@[subscribed_positions(*self, next, client)[k]],
                        r@[k],
                    ) by {
                        assert(same_parameter(parameters@[subscribed_positions(*self, prefix, client)[k]], before[k]));
                    }
                }
            }
            i = i + 1;
        }
        assert(parameters@.take(parameters@.len() as int) =~= parameters@);
        proof {
            let pos = subscribed_positions(*self, parameters@, client);
            subscribed_positions_select_exactly(*self, parameters@, client);
            assert forall|j: int| 0 <= j < r@.len() implies self.subscribed(#[trigger] r@[j].name@, client) by {
                assert(same_parameter(parameters@[pos[j]], r@[j]));
            }
            assert forall|i: int|
                0 <= i < parameters@.len() && self.subscribed(#[trigger] parameters@[i].name@, client) implies exists|j: int|
                    0 <= j < r@.len() && same_parameter(parameters@[i], r@[j]) by {
                let k = choose|k: int| 0 <= k < pos.len() && pos[k] == i;
                assert(same_parameter(parameters@[pos[k]], r@[k]));
            }
        }
        r
    }
}

/// The positions, in order, of the parameters whose names `client` is subscribed to.
pub open spec fn subscribed_positions(subs: ParameterSubscriptions, parameters: Seq<Parameter>, client: ClientId) -> Seq<int>
    decreases parameters.len(),
{
    if parameters.len() == 0 {
        Seq::empty()
    } else {
        let rest = subscribed_positions(subs, parameters.drop_last(), client);
        if subs.subscribed(parameters.last().name@, client) {
            rest.push(parameters.len() - 1)
        } else {
            rest
        }
    }
}

/// The positions of the parameters sent to a client are exactly those of the parameters whose
/// names it is subscribed to, each once and in increasing order: no parameter goes to a client
/// that is not subscribed to it, and none that it is subscribed to is left out.
pub proof fn subscribed_positions_select_exactly(subs: ParameterSubscriptions, parameters: Seq<Parameter>, client: ClientId)
    ensures
        forall|k: int|
            0 <= k < subscribed_positions(subs, parameters, client).len() ==> 0 <= #[trigger] subscribed_positions(
                subs,
                parameters,
                client,
            )[k] < parameters.len() && subs.subscribed(
                parameters[subscribed_positions(subs, parameters, client)[k]].name@,
                client,
            ),
        forall|k: int, l: int|
            0 <= k < l < subscribed_positions(subs, parameters, client).len() ==> #[trigger] subscribed_positions(
                subs,
                parameters,
                client,
            )[k] < #[trigger] subscribed_positions(subs, parameters, client)[l],
        forall|i: int|
            0 <= i < parameters.len() && subs.subscribed(#[trigger] parameters[i].name@, client) ==> exists|k: int|
                0 <= k < subscribed_positions(subs, parameters, client).len() && subscribed_positions(
                    subs,
                    parameters,
                    client,
                )[k] == i,
    decreases parameters.len(),
{
    if parameters.len() > 0 {
        let p = parameters.drop_last();
        subscribed_positions_select_exactly(subs, p, client);
        let rest = subscribed_positions(subs, p, client);
        let pos = subscribed_positions(subs, parameters, client);
        let n = parameters.len() - 1;
        assert forall|k: int| 0 <= k < rest.len() implies 0 <= #[trigger] rest[k] < n by {}
        if subs.subscribed(parameters.last().name@, client) {
            assert(pos == rest.push(n));
            assert forall|k: int| 0 <= k < pos.len() implies 0 <= #[trigger] pos[k] < parameters.len() && subs.subscribed(
                parameters[pos[k]].name@,
                client,
            ) by {
                if k < rest.len() {
                    assert(pos[k] == rest[k]);
                    assert(parameters[rest[k]] == p[rest[k]]);
                }
            }
            assert forall|k: int, l: int| 0 <= k < l < pos.len() implies #[trigger] pos[k] < #[trigger] pos[l] by {
                if l < rest.len() {
                    assert(pos[k] == rest[k] && pos[l] == rest[l]);
                } else {
                    assert(pos[k] == rest[k]);
                }
            }
            assert forall|i: int|
                0 <= i < parameters.len() && subs.subscribed(#[trigger] parameters[i].name@, client) implies exists|k: int|
                    0 <= k < pos.len() && pos[k] == i by {
                if i < n {
                    assert(parameters[i] == p[i]);
                    let k = choose|k: int| 0 <= k < rest.len() && rest[k] == i;
                    assert(pos[k] == i);
                } else {
                    assert(pos[rest.len() as int] == i);
                }
            }
        } else {
            assert(pos == rest);
            assert forall|k: int| 0 <= k < pos.len() implies 0 <= #[trigger] pos[k] < parameters.len() && subs.subscribed(
                parameters[pos[k]].name@,
                client,
            ) by {
                assert(parameters[rest[k]] == p[rest[k]]);
            }
            assert forall|i: int|
                0 <= i < parameters.len() && subs.subscribed(#[trigger] parameters[i].name@, client) implies exists|k: int|
                    0 <= k < pos.len() && pos[k] == i by {
                if i < n {
                    assert(parameters[i] == p[i]);
                } else {
                    assert(parameters[i] == parameters.last());
                }
            }
        }
    }
}

/// A sequence with one more element contains what it contained, and that element.
pub proof fn lemma_push_contains<A>(s: Seq<A>, x: A)
    ensures
        forall|n: A| #[trigger] s.push(x).contains(n) <==> s.contains(n) || n == x,
{
    assert forall|n: A| #[trigger] s.push(x).contains(n) <==> s.contains(n) || n == x by {
        if s.contains(n) {
            let k = choose|k: int| 0 <= k < s.len() && s[k] == n;
            assert(s.push(x)[k] == n);
        }
        if n == x {
            assert(s.push(x)[s.len() as int] == n);
        }
        if s.push(x).contains(n) && n != x {
            let k = choose|k: int| 0 <= k < s.push(x).len() && s.push(x)[k] == n;
            assert(s[k] == n);
        }
    }
}

/// The names reported as losing their last subscriber are exactly those among `names` of
/// which `client` was the only subscriber, each reported once.
pub proof fn last_subscriber_names(subs: ParameterSubscriptions, client: ClientId, names: Seq<Seq<char>>)
    ensures
        forall|n: Seq<char>| #[trigger] newly_unsubscribed(subs, client, names).contains(n) <==> names.contains(n)
            && subs.subscribed(n, client) && subs.sole_subscriber(n, client),
        newly_unsubscribed(subs, client, names).no_duplicates(),
    decreases names.len(),
{
    if names.len() > 0 {
        let prefix = names.drop_last();
        let last = names.last();
        last_subscriber_names(subs, client, prefix);
        let rest = newly_unsubscribed(subs, client, prefix);
        lemma_push_contains(rest, last);
        assert(names =~= prefix.push(last));
        lemma_push_contains(prefix, last);
        if subs.subscribed(last, client) && subs.sole_subscriber(last, client) && !prefix.contains(last) {
            assert(!rest.contains(last));
            let r = rest.push(last);
            assert forall|i: int, j: int| 0 <= i < r.len() && 0 <= j < r.len() && i != j implies r[i] != r[j] by {
                if i < rest.len() && j < rest.len() {
                    assert(r[i] == rest[i] && r[j] == rest[j]);
                } else if i < rest.len() {
                    assert(rest[i] == r[i]);
                    assert(rest.contains(r[i]));
                } else if j < rest.len() {
                    assert(rest[j] == r[j]);
                    assert(rest.contains(r[j]));
                }
            }
        }
    }
}

/// The names reported as gaining their first subscriber are exactly those among `names` that
/// had no subscriber, each reported once.
pub proof fn first_subscriber_names(subs: ParameterSubscriptions, names: Seq<Seq<char>>)
    ensures
        forall|n: Seq<char>| #[trigger] newly_subscribed(subs, names).contains(n) <==> names.contains(n)
            && !subs.has_subscribers(n),
        newly_subscribed(subs, names).no_duplicates(),
    decreases names.len(),
{
    if names.len() > 0 {
        let prefix = names.drop_last();
        let last = names.last();
        first_subscriber_names(subs, prefix);
        let rest = newly_subscribed(subs, prefix);
        lemma_push_contains(rest, last);
        assert(names =~= prefix.push(last));
        lemma_push_contains(prefix, last);
        if !subs.has_subscribers(last) && !prefix.contains(last) {
            assert(!rest.contains(last));
            let r = rest.push(last);
            assert forall|i: int, j: int| 0 <= i < r.len() && 0 <= j < r.len() && i != j implies r[i] != r[j] by {
                if i < rest.len() && j < rest.len() {
                    assert(r[i] == rest[i] && r[j] == rest[j]);
                } else if i < rest.len() {
                    assert(rest[i] == r[i]);
                    assert(rest.contains(r[i]));
                } else if j < rest.len() {
                    assert(rest[j] == r[j]);
                    assert(rest.contains(r[j]));
                }
            }
        }
    }
}

/// A prefix one longer contains what the shorter one contains, and the new last element.
pub proof fn lemma_take_contains<A>(all: Seq<A>, i: int)
    requires
        0 <= i < all.len(),
    ensures
        forall|n: A| #[trigger] all.take(i + 1).contains(n) <==> all.take(i).contains(n) || n == all[i],
{
    assert forall|n: A| #[trigger] all.take(i + 1).contains(n) <==> all.take(i).contains(n) || n == all[i] by {
        if all.take(i).contains(n) {
            let j = choose|j: int| 0 <= j < all.take(i).len() && all.take(i)[j] == n;
            assert(all.take(i + 1)[j] == n);
        }
        if n == all[i] {
            assert(all.take(i + 1)[i] == n);
        }
        if all.take(i + 1).contains(n) {
            let t1 = all.take(i + 1);
            let j = choose|j: int| 0 <= j < t1.len() && t1[j] == n;
            if j < i {
                assert(all.take(i)[j] == n);
            }
        }
    }
}

} // verus!
