//! The relay's shared state: the bus and the connection registry, and the
//! operations that the endpoints perform on them.

use crate::bus::{capacity_of, new_bus, publish, PublishOutcome, BUS_CAPACITY};
use crate::client_id::{
    fresh_id, hyphenated, id_text, is_v4, lemma_id_text_injective, lemma_probe_keeps_version, probe,
};
use crate::envelope::{welcome_message, welcome_text, WsEvent};
use crate::registry::{first_vacant, ConnectionStatus, Registry};
use tokio::sync::broadcast::{Receiver, Sender};
use vstd::prelude::*;

verus! {

/// The state that every endpoint works on. It is made once, when the relay
/// starts, and lives as long as the process.
pub struct AppState {
    /// The bus that carries serialized events to every subscribed session.
    tx: Sender<String>,
    /// The connected clients.
    clients: Registry,
}

/// What a session holds once it is connected.
pub struct Connection {
    /// The identifier assigned to the session.
    pub id: u128,
    /// The message to send first on the outbound stream.
    pub welcome: String,
    /// The session's handle on the bus. Dropping it ends the subscription.
    pub subscription: Receiver<String>,
}

/// A snapshot of the registry.
#[derive(Debug, Clone, PartialEq, Eq)]
pub struct Stats {
    /// The number of connected clients.
    pub connected_clients: usize,
    /// Their identifiers, in textual form.
    pub client_ids: Vec<String>,
}

impl AppState {
    /// The registry, as a map from identifier to status.
    pub closed spec fn clients(&self) -> Map<u128, ConnectionStatus> {
        self.clients@
    }

    /// The capacity that the relay's bus was made with.
    pub closed spec fn bus_capacity(&self) -> usize {
        capacity_of(self.tx)
    }

    /// A relay with no client connected and no session subscribed, whose bus
    /// is made with the capacity `BUS_CAPACITY`.
    pub fn new() -> (state: AppState)
        ensures
            state.clients() == Map::<u128, ConnectionStatus>::empty(),
            state.bus_capacity() == BUS_CAPACITY,
    {
        AppState { tx: new_bus(BUS_CAPACITY), clients: Registry::new() }
    }

    /// Connects a session: assigns it an identifier that no connected
    /// session has, registers it, subscribes it to the bus and prepares its
    /// welcome message. The identifier is drawn at random; should the draw
    /// be in use, the first free one of those tried in its place is taken.
    pub fn connect(&mut self) -> (connection: Connection)
        ensures
            is_v4(connection.id),
            !old(self).clients().contains_key(connection.id),
            final(self).clients() == old(self).clients().insert(
                connection.id,
                ConnectionStatus::Connected,
            ),
            final(self).clients().dom().len() == old(self).clients().dom().len() + 1,
            connection.welcome@ == welcome_text(connection.id),
            final(self).bus_capacity() == old(self).bus_capacity(),
    {
        let drawn = fresh_id();
        let id = self.clients.vacant(drawn);
        proof {
            let k = choose|k: u64| first_vacant(self.clients@, drawn, k) && id == probe(drawn, k);
            lemma_probe_keeps_version(drawn, k);
            self.clients.lemma_finite();
        }
        self.clients.register(id);
        let subscription = self.tx.subscribe();
        let welcome = welcome_message(id);
        Connection { id, welcome, subscription }
    }

    /// Removes a session from the registry. Disconnecting an identifier that
    /// is not registered changes nothing.
    pub fn disconnect(&mut self, id: u128)
        ensures
            final(self).clients() == old(self).clients().remove(id),
            final(self).bus_capacity() == old(self).bus_capacity(),
    {
        self.clients.unregister(id);
    }

    /// Publishes an event to every subscribed session. The publish succeeds
    /// whether or not anybody is subscribed.
    pub fn publish(&self, event: &WsEvent) -> (outcome: PublishOutcome)
        ensures
            outcome.is_success(),
            outcome matches PublishOutcome::Delivered { receivers } ==> receivers >= 1,
    {
        publish(&self.tx, event.to_wire())
    }

    /// Reads the registry: the count and the identifiers are those of one
    /// and the same moment.
    pub fn stats(&self) -> (stats: Stats)
        ensures
            stats.connected_clients == self.clients().dom().len(),
            stats.client_ids@.len() == stats.connected_clients,
            stats.client_ids.deep_view().no_duplicates(),
            stats.client_ids.deep_view().to_set() == self.clients().dom().map(
                |id: u128| id_text(id),
            ),
    {
        let ids = self.clients.ids();
        let mut client_ids: Vec<String> = Vec::new();
        let mut i: usize = 0;
        while i < ids.len()
            invariant
                i <= ids.len(),
                client_ids@.len() == i,
                forall|k: int| 0 <= k < i ==> client_ids@[k]@ == id_text(ids@[k]),
            decreases ids.len() - i,
        {
            client_ids.push(hyphenated(ids[i]));
            i += 1;
        }
        proof {
            let texts = client_ids.deep_view();
            assert forall|a: int, b: int| 0 <= a < texts.len() && 0 <= b < texts.len() && a
                != b implies texts[a] != texts[b] by {
                if texts[a] == texts[b] {
                    lemma_id_text_injective(ids@[a], ids@[b]);
                }
            }
            let shown = self.clients().dom().map(|id: u128| id_text(id));
            assert forall|t: Seq<char>| texts.to_set().contains(t) <==> shown.contains(t) by {
                if texts.to_set().contains(t) {
                    let k = choose|k: int| 0 <= k < texts.len() && texts[k] == t;
                    assert(ids@.to_set().contains(ids@[k]));
                }
                if shown.contains(t) {
                    let id = choose|id: u128| self.clients().dom().contains(id) && t == id_text(id);
                    assert(ids@.to_set().contains(id));
                    let k = choose|k: int| 0 <= k < ids@.len() && ids@[k] == id;
                    assert(texts[k] == t);
                }
            }
            assert(texts.to_set() =~= shown);
        }
        Stats { connected_clients: ids.len(), client_ids }
    }
}

} // verus!
