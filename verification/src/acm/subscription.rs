//! Subscriptions: the sinks of each configuration, the keys waiting for their first read,
//! and whether the listener runs.

use vstd::prelude::*;
use crate::keyed::{KeyView, KeyedList, key_view};
use super::request::InnerClient;

verus! {

/// The stream a subscriber reads changes of one configuration from.
pub struct SubStream<R> {
    pub group_id: String,
    pub data_id: String,
    pub inner: R,
}

/// A configuration client with its subscriptions: the keys still waiting for their first
/// read, the sinks that changes of each key are sent to, and whether the listener runs.
pub struct AcmClient<T> {
    pub inner: InnerClient,
    pub pending_subs: Vec<(String, String)>,
    pub subscriptions: KeyedList<Vec<T>>,
    pub listening: bool,
}

/// The views of a list of keys.
pub open spec fn keys_view(v: Seq<(String, String)>) -> Seq<KeyView> {
    v.map_values(|k: (String, String)| key_view(k))
}

/// Whether every key waiting for its first read has subscribers.
pub open spec fn pending_subscribed<T>(c: AcmClient<T>) -> bool {
    forall|i: int|
        0 <= i < c.pending().len() ==> c.sinks_map().contains_key(#[trigger] c.pending()[i])
}

/// What one subscription does to the listener: it is started exactly when it was not
/// running, and it runs afterwards.
pub open spec fn starts_listener(was_listening: bool, listening: bool, start: bool) -> bool {
    start == !was_listening && listening
}

/// Over any run of subscriptions on a client whose listener does not run yet (as `new`
/// leaves it), the listener is started exactly once, by the first subscription, and runs
/// from then on.
pub proof fn lemma_listener_started_once<T>(clients: Seq<AcmClient<T>>, starts: Seq<bool>)
    requires
        starts.len() >= 1,
        clients.len() == starts.len() + 1,
        !clients[0].is_listening(),
        forall|i: int|
            0 <= i < starts.len() ==> starts_listener(
                clients[i].is_listening(),
                clients[i + 1].is_listening(),
                #[trigger] starts[i],
            ),
    ensures
        starts[0],
        forall|i: int| 1 <= i < starts.len() ==> !#[trigger] starts[i],
        forall|i: int| 1 <= i < clients.len() ==> #[trigger] clients[i].is_listening(),
{
    assert forall|i: int| 1 <= i < clients.len() implies #[trigger] clients[i].is_listening() by {
        assert(starts_listener(clients[i - 1].is_listening(), clients[i].is_listening(), starts[i - 1]));
    }
    assert forall|i: int| 1 <= i < starts.len() implies !#[trigger] starts[i] by {
        assert(starts_listener(clients[i - 1].is_listening(), clients[i].is_listening(), starts[i - 1]));
        assert(starts_listener(clients[i].is_listening(), clients[i + 1].is_listening(), starts[i]));
    }
    assert(starts_listener(clients[0].is_listening(), clients[1].is_listening(), starts[0]));
}

impl<T> AcmClient<T> {
    /// The keys waiting for their first read, in order.
    pub open spec fn pending(&self) -> Seq<KeyView> {
        keys_view(self.pending_subs@)
    }

    /// The sinks of each subscribed key.
    pub open spec fn sinks_map(&self) -> Map<KeyView, Vec<T>> {
        self.subscriptions@
    }

    /// Whether the listener has been started.
    pub open spec fn is_listening(&self) -> bool {
        self.listening
    }

    /// Whether the client's state is consistent.
    pub open spec fn wf(&self) -> bool {
        self.subscriptions.wf()
    }

    /// A client with no subscription and no listener.
    pub fn new(tenant: String, access_key: String, access_secret: String, endpoint: String) -> (r:
        Self)
        ensures
            r.wf(),
            r.inner.tenant == tenant,
            r.inner.access_key == access_key,
            r.inner.access_secret == access_secret,
            r.inner.endpoint == endpoint,
            r.inner.server_list is None,
            r.inner.index == 0,
            r.pending() == Seq::<KeyView>::empty(),
            r.sinks_map() == Map::<KeyView, Vec<T>>::empty(),
            !r.is_listening(),
    {
        let inner = InnerClient::new(tenant, access_key, access_secret, endpoint);
        let r = AcmClient {
            inner,
            pending_subs: Vec::new(),
            subscriptions: KeyedList::new(),
            listening: false,
        };
        assert(keys_view(r.pending_subs@) =~= Seq::<KeyView>::empty());
        r
    }

    /// Subscribes `sink` to changes of the configuration `data_id` of `group_id`: the sink
    /// joins the key's sinks, the key waits for its first read, and the stream of the
    /// subscriber is given back with whether the listener has to be started now.
    pub fn subscribe<R>(&mut self, data_id: &str, group_id: &str, sink: T, receiver: R) -> (r: (
        SubStream<R>,
        bool,
    ))
        requires
            old(self).wf(),
        ensures
            final(self).wf(),
            r.0.data_id@ == data_id@,
            r.0.group_id@ == group_id@,
            r.0.inner == receiver,
            starts_listener(old(self).is_listening(), final(self).is_listening(), r.1),
            final(self).pending() == old(self).pending().push((data_id@, group_id@)),
            final(self).sinks_map().dom() == old(self).sinks_map().dom().insert(
                (data_id@, group_id@),
            ),
            final(self).sinks_map()[(data_id@, group_id@)]@ == if old(
                self,
            ).sinks_map().contains_key((data_id@, group_id@)) {
                old(self).sinks_map()[(data_id@, group_id@)]@.push(sink)
            } else {
                seq![sink]
            },
            forall|k: KeyView|
                k != (data_id@, group_id@) && #[trigger] old(self).sinks_map().contains_key(k)
                    ==> final(self).sinks_map()[k] == old(self).sinks_map()[k],
            pending_subscribed(*old(self)) ==> pending_subscribed(*final(self)),
            final(self).inner == old(self).inner,
    {
        let key = (String::from_str(data_id), String::from_str(group_id));
        let key2 = (String::from_str(data_id), String::from_str(group_id));
        self.subscriptions.push_value(key, sink);
        let ghost before = self.pending_subs@;
        self.pending_subs.push(key2);
        assert(keys_view(self.pending_subs@) =~= keys_view(before).push((data_id@, group_id@)));
        let start = !self.listening;
        self.listening = true;
        assert(pending_subscribed(*old(self)) ==> pending_subscribed(*self)) by {
            if pending_subscribed(*old(self)) {
                assert forall|i: int| 0 <= i < self.pending().len() implies self.sinks_map().contains_key(
                    #[trigger] self.pending()[i],
                ) by {
                    if i < old(self).pending().len() {
                        assert(self.pending()[i] == old(self).pending()[i]);
                        assert(self.sinks_map().dom().contains(old(self).pending()[i]));
                    }
                }
            }
        }
        (
            SubStream {
                data_id: String::from_str(data_id),
                group_id: String::from_str(group_id),
                inner: receiver,
            },
            start,
        )
    }

    /// Removes nothing: unsubscribing is not offered.
    pub fn unsubscribe() {
    }

    /// Takes the keys waiting for their first read, leaving none.
    pub fn take_pending(&mut self) -> (r: Vec<(String, String)>)
        requires
            old(self).wf(),
        ensures
            final(self).wf(),
            keys_view(r@) == old(self).pending(),
            final(self).pending() == Seq::<KeyView>::empty(),
            final(self).sinks_map() == old(self).sinks_map(),
            final(self).is_listening() == old(self).is_listening(),
            final(self).inner == old(self).inner,
    {
        let mut r: Vec<(String, String)> = Vec::new();
        std::mem::swap(&mut r, &mut self.pending_subs);
        assert(keys_view(self.pending_subs@) =~= Seq::<KeyView>::empty());
        r
    }

    /// Puts `key` back among the keys waiting for their first read.
    pub fn requeue(&mut self, key: (String, String))
        requires
            old(self).wf(),
        ensures
            final(self).wf(),
            final(self).pending() == old(self).pending().push(key_view(key)),
            final(self).sinks_map() == old(self).sinks_map(),
            final(self).is_listening() == old(self).is_listening(),
            final(self).inner == old(self).inner,
    {
        let ghost before = self.pending_subs@;
        self.pending_subs.push(key);
        assert(keys_view(self.pending_subs@) =~= keys_view(before).push(key_view(key)));
    }

    /// The sinks subscribed to `data_id` of `group_id`, if any.
    pub fn sinks(&self, data_id: &str, group_id: &str) -> (r: Option<&Vec<T>>)
        requires
            self.wf(),
        ensures
            r matches Some(v) ==> self.sinks_map().contains_key((data_id@, group_id@)) && *v
                == self.sinks_map()[(data_id@, group_id@)],
            r is None ==> !self.sinks_map().contains_key((data_id@, group_id@)),
    {
        self.subscriptions.get(data_id, group_id)
    }
}

} // verus!
