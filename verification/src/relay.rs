//! The relay as a whole: many sessions and one registry. The sessions run
//! side by side; what is stated here holds of every order in which their
//! events can come.

use crate::registry::ConnectionStatus;
use crate::session::{transition, SessionAction, SessionEvent, SessionState};
use vstd::prelude::*;

verus! {

/// The state of session `s`, where `sessions` holds the sessions that have
/// seen an event: one that has seen none is still connecting.
pub open spec fn state_of(sessions: Map<nat, SessionState>, s: nat) -> SessionState {
    if sessions.contains_key(s) {
        sessions[s]
    } else {
        SessionState::Connecting
    }
}

/// The states of the sessions after `trace`, a sequence of events, each with
/// the number of the session it happened to.
pub open spec fn sessions_after(trace: Seq<(nat, SessionEvent)>) -> Map<nat, SessionState>
    decreases trace.len(),
{
    if trace.len() == 0 {
        Map::empty()
    } else {
        let before = sessions_after(trace.drop_last());
        let (s, event) = trace.last();
        before.insert(s, transition(state_of(before, s), event).0)
    }
}

/// The action that the last event of `trace` called for.
pub open spec fn action_after(trace: Seq<(nat, SessionEvent)>) -> SessionAction
    recommends
        trace.len() > 0,
{
    let (s, event) = trace.last();
    transition(state_of(sessions_after(trace.drop_last()), s), event).1
}

/// The registry after `trace`, where session `s` is given the identifier
/// `id_of(s)` and every action on the registry is performed as it is called
/// for: `Open` registers the session and `Unregister` removes it.
pub open spec fn clients_after(
    trace: Seq<(nat, SessionEvent)>,
    id_of: spec_fn(nat) -> u128,
) -> Map<u128, ConnectionStatus>
    decreases trace.len(),
{
    if trace.len() == 0 {
        Map::empty()
    } else {
        let before = clients_after(trace.drop_last(), id_of);
        let id = id_of(trace.last().0);
        match action_after(trace) {
            SessionAction::Open => before.insert(id, ConnectionStatus::Connected),
            SessionAction::Unregister => before.remove(id),
            _ => before,
        }
    }
}

/// The sessions that are established after `trace`.
pub open spec fn established_after(trace: Seq<(nat, SessionEvent)>) -> Set<nat> {
    Set::new(|s: nat| state_of(sessions_after(trace), s) == SessionState::Established)
}

/// No session opens under the identifier of a session that is established
/// at that moment.
pub open spec fn identifiers_distinct(
    trace: Seq<(nat, SessionEvent)>,
    id_of: spec_fn(nat) -> u128,
) -> bool {
    forall|k: int, other: nat|
        #![trigger established_after(trace.take(k)).contains(other)]
        0 <= k < trace.len() && action_after(trace.take(k + 1)) == SessionAction::Open
            && established_after(trace.take(k)).contains(other) ==> id_of(other) != id_of(
            trace[k].0,
        )
}

/// The registry holds the identifiers of the established sessions and no
/// other, and no two established sessions share one.
proof fn lemma_registry_mirrors_sessions(
    trace: Seq<(nat, SessionEvent)>,
    id_of: spec_fn(nat) -> u128,
)
    requires
        identifiers_distinct(trace, id_of),
    ensures
        sessions_after(trace).dom().finite(),
        forall|id: u128|
            clients_after(trace, id_of).contains_key(id) <==> exists|s: nat|
                #[trigger] established_after(trace).contains(s) && id_of(s) == id,
        forall|s: nat, t: nat|
            established_after(trace).contains(s) && established_after(trace).contains(t)
                && id_of(s) == id_of(t) ==> s == t,
    decreases trace.len(),
{
    if trace.len() > 0 {
        let n = trace.len() - 1;
        let past = trace.drop_last();
        let (s, event) = trace.last();
        assert(trace.take(n) =~= past);
        assert(trace.take(n + 1) =~= trace);
        assert forall|k: int, other: nat|
            #![trigger established_after(past.take(k)).contains(other)]
            0 <= k < past.len() && action_after(past.take(k + 1)) == SessionAction::Open
                && established_after(past.take(k)).contains(other) implies id_of(other) != id_of(
            past[k].0,
        ) by {
            assert(past.take(k) =~= trace.take(k));
            assert(past.take(k + 1) =~= trace.take(k + 1));
            assert(established_after(trace.take(k)).contains(other));
        }
        lemma_registry_mirrors_sessions(past, id_of);
        let before = state_of(sessions_after(past), s);
        let (next, action) = transition(before, event);
        assert(action == action_after(trace));
        assert forall|t: nat| t != s implies (established_after(trace).contains(t)
            <==> established_after(past).contains(t)) by {}
        assert(established_after(trace).contains(s) <==> next == SessionState::Established);
        assert(established_after(past).contains(s) <==> before == SessionState::Established);
        assert(action == SessionAction::Open <==> before != SessionState::Established && next
            == SessionState::Established);
        assert(action == SessionAction::Unregister <==> before == SessionState::Established
            && next != SessionState::Established);
        if action == SessionAction::Open {
            assert forall|other: nat| established_after(past).contains(other) implies id_of(other)
                != id_of(s) by {
                assert(established_after(trace.take(n)).contains(other));
                assert(trace[n].0 == s);
            }
        }
        assert forall|id: u128|
            clients_after(trace, id_of).contains_key(id) implies exists|t: nat|
            #[trigger] established_after(trace).contains(t) && id_of(t) == id by {
            if action == SessionAction::Open && id == id_of(s) {
                assert(established_after(trace).contains(s));
            } else {
                assert(clients_after(past, id_of).contains_key(id));
                let t = choose|t: nat|
                    #[trigger] established_after(past).contains(t) && id_of(t) == id;
                assert(established_after(trace).contains(t));
            }
        }
        assert forall|id: u128|
            (exists|t: nat| #[trigger] established_after(trace).contains(t) && id_of(t) == id)
            implies clients_after(trace, id_of).contains_key(id) by {
            let t = choose|t: nat| #[trigger] established_after(trace).contains(t) && id_of(t) == id;
            if t != s || before == SessionState::Established {
                assert(established_after(past).contains(t));
                assert(clients_after(past, id_of).contains_key(id));
                if action == SessionAction::Unregister {
                    assert(established_after(past).contains(s));
                    assert(id_of(s) != id);
                }
            }
        }
    }
}

/// After any sequence of events, in any interleaving over any number of
/// sessions, the registry counts exactly the sessions that are established,
/// provided that no session is given the identifier of another that is
/// established at the same time.
pub proof fn lemma_count_is_established_sessions(
    trace: Seq<(nat, SessionEvent)>,
    id_of: spec_fn(nat) -> u128,
)
    requires
        identifiers_distinct(trace, id_of),
    ensures
        established_after(trace).finite(),
        clients_after(trace, id_of).dom().finite(),
        clients_after(trace, id_of).dom().len() == established_after(trace).len(),
{
    lemma_registry_mirrors_sessions(trace, id_of);
    let live = established_after(trace);
    let seen = sessions_after(trace).dom();
    assert(live.subset_of(seen));
    vstd::set_lib::lemma_len_subset(live, seen);
    assert(vstd::relations::injective_on(id_of, live));
    assert(live.map(id_of) =~= clients_after(trace, id_of).dom()) by {
        assert forall|id: u128| live.map(id_of).contains(id) implies clients_after(
            trace,
            id_of,
        ).dom().contains(id) by {
            let s = choose|s: nat| live.contains(s) && id == id_of(s);
            assert(established_after(trace).contains(s));
        }
        assert forall|id: u128| clients_after(trace, id_of).dom().contains(id) implies live.map(
            id_of,
        ).contains(id) by {
            let s = choose|s: nat| #[trigger] established_after(trace).contains(s) && id_of(s) == id;
            assert(live.contains(s) && id == id_of(s));
        }
    }
    vstd::set_lib::lemma_map_size(live, clients_after(trace, id_of).dom(), id_of);
}

/// A relay that gives every session that opens an identifier that is not
/// registered at that moment keeps the identifiers of its established
/// sessions distinct, whatever happens and in whatever order.
pub proof fn lemma_unregistered_identifier_is_distinct(
    trace: Seq<(nat, SessionEvent)>,
    id_of: spec_fn(nat) -> u128,
    s: nat,
    event: SessionEvent,
)
    requires
        identifiers_distinct(trace, id_of),
        action_after(trace.push((s, event))) == SessionAction::Open ==> !clients_after(
            trace,
            id_of,
        ).contains_key(id_of(s)),
    ensures
        identifiers_distinct(trace.push((s, event)), id_of),
{
    let next = trace.push((s, event));
    let n = trace.len() as int;
    lemma_registry_mirrors_sessions(trace, id_of);
    assert forall|k: int, other: nat|
        #![trigger established_after(next.take(k)).contains(other)]
        0 <= k < next.len() && action_after(next.take(k + 1)) == SessionAction::Open
            && established_after(next.take(k)).contains(other) implies id_of(other) != id_of(
        next[k].0,
    ) by {
        if k < n {
            assert(next.take(k) =~= trace.take(k));
            assert(next.take(k + 1) =~= trace.take(k + 1));
            assert(established_after(trace.take(k)).contains(other));
        } else {
            assert(next.take(k) =~= trace);
            assert(next.take(k + 1) =~= next);
            assert(established_after(trace).contains(other));
            assert(clients_after(trace, id_of).contains_key(id_of(other)));
        }
    }
}

/// What happens to one session changes no other: whatever the event, and
/// whether or not it closes the session it happens to, every other session
/// is left in its state and every other identifier is left in the registry
/// or out of it, as it was.
pub proof fn lemma_sessions_do_not_interfere(
    trace: Seq<(nat, SessionEvent)>,
    id_of: spec_fn(nat) -> u128,
    s: nat,
    event: SessionEvent,
    other: nat,
)
    requires
        other != s,
        id_of(other) != id_of(s),
    ensures
        state_of(sessions_after(trace.push((s, event))), other) == state_of(
            sessions_after(trace),
            other,
        ),
        clients_after(trace.push((s, event)), id_of).contains_key(id_of(other)) == clients_after(
            trace,
            id_of,
        ).contains_key(id_of(other)),
{
    assert(trace.push((s, event)).drop_last() =~= trace);
}

} // verus!
