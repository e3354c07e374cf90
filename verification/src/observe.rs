//! What clients see: the messages that reach a connection, and the sessions that
//! they are for.
use vstd::prelude::*;

use crate::fxmap;
use crate::json::Json;
use crate::model;
use crate::model::Audience;
use crate::model::CdpSession;
use crate::model::Sent;
use crate::model::State;
use crate::model::TicketView;
use crate::names;

verus! {

/// The member `key` of an object. A member that is not there is as good as
/// null.
pub open spec fn part(json: Json, key: Seq<char>) -> Json {
    match json {
        Json::Object(members) => if members.contains_key(key) {
            members[key]
        } else {
            Json::Null
        },
        _ => Json::Null,
    }
}

/// An object has a member of that name.
pub open spec fn holds(json: Json, key: Seq<char>) -> bool {
    json matches Json::Object(members) && members.contains_key(key)
}

/// The items of a list.
pub open spec fn items(json: Json) -> Seq<Json> {
    match json {
        Json::Array(list) => list,
        _ => Seq::empty(),
    }
}

/// The session that a message is for.
pub open spec fn session_in(message: Json) -> Option<Seq<char>> {
    match part(message, "sessionId"@) {
        Json::Text(session_id) => Some(session_id),
        _ => None,
    }
}

/// The messages of a queue that go to a connection, and there to a session or to
/// none, in order.
pub open spec fn seen(queue: Seq<Sent>, connection_id: u64, session: Option<Seq<char>>) -> Seq<Json>
    decreases queue.len(),
{
    if queue.len() == 0 {
        Seq::empty()
    } else {
        let front = seen(queue.drop_last(), connection_id, session);
        let (to, message) = queue.last();
        if to == connection_id && session_in(message) == session {
            front.push(message)
        } else {
            front
        }
    }
}

/// The messages that a session, or a connection outside its sessions, gets
/// between two states.
pub open spec fn news(
    before: State,
    after: State,
    connection_id: u64,
    session: Option<Seq<char>>,
) -> Seq<Json> {
    seen(after.outbox.skip(before.outbox.len() as int), connection_id, session)
}

/// Nothing that was queued is lost or changed.
pub open spec fn extends(before: State, after: State) -> bool {
    before.outbox.is_prefix_of(after.outbox)
}

/// The session is there, is attached to the target, and talks to the connection.
pub open spec fn is_between(
    state: State,
    connection_id: u64,
    session: Option<Seq<char>>,
    target_id: u64,
) -> bool {
    &&& session matches Some(id)
    &&& state.sessions.contains_key(id)
    &&& state.sessions[id].connection_id == connection_id
    &&& state.sessions[id].target_id == target_id
}

pub(crate) proof fn lemma_seen_append(
    a: Seq<Sent>,
    b: Seq<Sent>,
    connection_id: u64,
    session: Option<Seq<char>>,
)
    ensures
        seen(a + b, connection_id, session) == seen(a, connection_id, session) + seen(
            b,
            connection_id,
            session,
        ),
    decreases b.len(),
{
    if b.len() == 0 {
        assert(a + b =~= a);
    } else {
        assert((a + b).drop_last() =~= a + b.drop_last());
        lemma_seen_append(a, b.drop_last(), connection_id, session);
    }
}

/// What is seen of two steps is what is seen of the first, and then what is seen
/// of the second.
pub(crate) proof fn lemma_news_compose(
    before: State,
    middle: State,
    after: State,
    connection_id: u64,
    session: Option<Seq<char>>,
)
    requires
        extends(before, middle),
        extends(middle, after),
    ensures
        extends(before, after),
        news(before, after, connection_id, session) == news(
            before,
            middle,
            connection_id,
            session,
        ) + news(middle, after, connection_id, session),
{
    let b = before.outbox.len() as int;
    let m = middle.outbox.len() as int;
    assert forall|i: int| 0 <= i < b implies before.outbox[i] == after.outbox[i] by {
        assert(before.outbox[i] == middle.outbox[i]);
        assert(middle.outbox[i] == after.outbox[i]);
    }
    assert(before.outbox =~= after.outbox.subrange(0, b));
    assert forall|i: int| b <= i < m implies middle.outbox[i] == after.outbox[i] by {}
    assert(after.outbox.skip(b) =~= middle.outbox.skip(b) + after.outbox.skip(m));
    lemma_seen_append(middle.outbox.skip(b), after.outbox.skip(m), connection_id, session);
}

/// A step that queues nothing is not seen.
pub(crate) proof fn lemma_quiet(
    before: State,
    after: State,
    connection_id: u64,
    session: Option<Seq<char>>,
)
    requires
        after.outbox == before.outbox,
    ensures
        extends(before, after),
        news(before, after, connection_id, session) == Seq::<Json>::empty(),
{
    assert(after.outbox.skip(before.outbox.len() as int) =~= Seq::empty());
    assert(before.outbox =~= after.outbox.subrange(0, before.outbox.len() as int));
}

/// One message that is queued is seen where it goes.
pub(crate) proof fn lemma_sent(
    before: State,
    after: State,
    to: u64,
    message: Json,
    connection_id: u64,
    session: Option<Seq<char>>,
)
    requires
        after.outbox == before.outbox.push((to, message)),
    ensures
        extends(before, after),
        news(before, after, connection_id, session) == if to == connection_id && session_in(message)
            == session {
            seq![message]
        } else {
            Seq::empty()
        },
{
    let new = after.outbox.skip(before.outbox.len() as int);
    assert(before.outbox =~= after.outbox.subrange(0, before.outbox.len() as int));
    assert(new =~= seq![(to, message)]);
    assert(new.drop_last() =~= Seq::empty());
    assert(Seq::<Json>::empty().push(message) =~= seq![message]);
    assert(seen(new.drop_last(), connection_id, session) == Seq::<Json>::empty());
}

pub(crate) proof fn lemma_with_session(message: Json, session_id: Seq<char>)
    requires
        message is Object,
    ensures
        session_in(model::with_session(message, session_id)) == Some(session_id),
        forall|key: Seq<char>|
            key != "sessionId"@ ==> #[trigger] part(model::with_session(message, session_id), key)
                == part(message, key),
        forall|key: Seq<char>|
            key != "sessionId"@ ==> #[trigger] holds(model::with_session(message, session_id), key)
                == holds(message, key),
{
}

proof fn lemma_seen_addressed(
    order: Seq<Seq<char>>,
    sessions: Map<Seq<char>, CdpSession>,
    event: Json,
    connection_id: u64,
    session: Option<Seq<char>>,
)
    requires
        order.no_duplicates(),
        event is Object,
    ensures
        seen(model::addressed(order, sessions, event), connection_id, session) == if session
            is Some && order.contains(session->Some_0) && sessions[session->Some_0].connection_id
            == connection_id {
            seq![model::with_session(event, session->Some_0)]
        } else {
            Seq::empty()
        },
    decreases order.len(),
{
    let all = model::addressed(order, sessions, event);
    if order.len() > 0 {
        let front = order.drop_last();
        let last = order.last();
        assert(all.drop_last() =~= model::addressed(front, sessions, event));
        lemma_seen_addressed(front, sessions, event, connection_id, session);
        lemma_with_session(event, last);
        if front.contains(last) {
            let i = choose|i: int| 0 <= i < front.len() && front[i] == last;
            assert(order[i] == order[order.len() - 1]);
        }
        if let Some(id) = session {
            if order.contains(id) && id != last {
                let i = choose|i: int| 0 <= i < order.len() && order[i] == id;
                assert(front[i] == id);
            }
            if front.contains(id) {
                let i = choose|i: int| 0 <= i < front.len() && front[i] == id;
                assert(order[i] == id);
            }
            assert(order[order.len() - 1] == last);
            assert(order.contains(last));
        }
        assert(Seq::<Json>::empty().push(model::with_session(event, last)) =~= seq![
            model::with_session(event, last),
        ]);
    }
}

/// An event is seen, once, by the sessions that it is for, and by nobody else.
pub(crate) proof fn lemma_announced(
    before: State,
    target_id: u64,
    audience: Audience,
    event: Json,
    after: State,
    connection_id: u64,
    session: Option<Seq<char>>,
)
    requires
        model::announced(before, target_id, audience, event, after),
        event is Object,
    ensures
        after == (State { outbox: after.outbox, ..before }),
        extends(before, after),
        news(before, after, connection_id, session) == if is_between(
            before,
            connection_id,
            session,
            target_id,
        ) && model::hears(before.sessions[session->Some_0], target_id, audience) {
            seq![model::with_session(event, session->Some_0)]
        } else {
            Seq::empty()
        },
{
    let chosen = model::listeners(before.sessions, target_id, audience);
    let order = choose|order: Seq<Seq<char>>| #[trigger]
        fxmap::lists(order, chosen) && after == (State {
            outbox: before.outbox + model::addressed(order, before.sessions, event),
            ..before
        });
    let new = model::addressed(order, before.sessions, event);
    assert(after.outbox.skip(before.outbox.len() as int) =~= new);
    assert(before.outbox =~= after.outbox.subrange(0, before.outbox.len() as int));
    lemma_seen_addressed(order, before.sessions, event, connection_id, session);
    if let Some(id) = session {
        assert(order.contains(id) == chosen.contains(id));
    }
}

/// A message is an event of that name.
pub open spec fn is_event(message: Json, method: Seq<char>) -> bool {
    &&& part(message, "method"@) == Json::Text(method)
    &&& part(message, "params"@) is Object
    &&& !holds(message, "id"@)
    &&& !holds(message, "result"@)
    &&& !holds(message, "error"@)
}

/// A parameter of an event.
pub open spec fn parameter(message: Json, key: Seq<char>) -> Json {
    part(part(message, "params"@), key)
}

/// The parts of a reply to a command of a session.
pub open spec fn is_reply(message: Json, id: i64, result: Json) -> bool {
    &&& part(message, "id"@) == Json::Int(id as int)
    &&& part(message, "result"@) == result
    &&& !holds(message, "error"@)
}

/// The parts of a reply that refuses a command.
pub open spec fn is_refusal(message: Json, id: i64, code: int, reason: Seq<char>) -> bool {
    &&& part(message, "id"@) == Json::Int(id as int)
    &&& part(part(message, "error"@), "code"@) == Json::Int(code)
    &&& part(part(message, "error"@), "message"@) == Json::Text(reason)
    &&& !holds(message, "result"@)
}

/// A command of a session with an id is answered under its session, and nobody
/// else sees anything; one without an id is not answered.
pub(crate) proof fn lemma_session_answer(
    before: State,
    ticket: TicketView,
    result: Json,
    connection_id: u64,
    session: Option<Seq<char>>,
)
    ensures
        ({
            let after = before.session_answer(ticket, result);
            let new = news(before, after, connection_id, session);
            &&& extends(before, after)
            &&& after == (State { outbox: after.outbox, ..before })
            &&& if ticket.id is Some && connection_id == ticket.connection_id && session == Some(
                ticket.session_id,
            ) {
                new.len() == 1 && is_reply(new[0], ticket.id->Some_0, result)
            } else {
                new.len() == 0
            }
        }),
{
    let after = before.session_answer(ticket, result);
    names::lemma_reply_names();
    if let Some(id) = ticket.id {
        let reply = model::reply_json(id, result);
        let message = model::with_session(reply, ticket.session_id);
        lemma_with_session(reply, ticket.session_id);
        lemma_sent(before, after, ticket.connection_id, message, connection_id, session);
    } else {
        lemma_quiet(before, after, connection_id, session);
    }
}

/// The same of one that is refused.
pub(crate) proof fn lemma_session_refuse(
    before: State,
    ticket: TicketView,
    code: i64,
    reason: Seq<char>,
    connection_id: u64,
    session: Option<Seq<char>>,
)
    ensures
        ({
            let after = before.session_refuse(ticket, code, reason);
            let new = news(before, after, connection_id, session);
            &&& extends(before, after)
            &&& after == (State { outbox: after.outbox, ..before })
            &&& if ticket.id is Some && connection_id == ticket.connection_id && session == Some(
                ticket.session_id,
            ) {
                new.len() == 1 && is_refusal(new[0], ticket.id->Some_0, code as int, reason)
            } else {
                new.len() == 0
            }
        }),
{
    let after = before.session_refuse(ticket, code, reason);
    names::lemma_reply_names();
    names::lemma_error_names();
    if let Some(id) = ticket.id {
        let reply = model::error_reply_json(id, code, reason);
        let message = model::with_session(reply, ticket.session_id);
        lemma_with_session(reply, ticket.session_id);
        lemma_sent(before, after, ticket.connection_id, message, connection_id, session);
    } else {
        lemma_quiet(before, after, connection_id, session);
    }
}

/// A command outside a session is answered outside a session.
pub(crate) proof fn lemma_answer(
    before: State,
    to: u64,
    id: i64,
    result: Json,
    connection_id: u64,
    session: Option<Seq<char>>,
)
    ensures
        ({
            let after = before.answer(to, id, result);
            let new = news(before, after, connection_id, session);
            &&& extends(before, after)
            &&& after == (State { outbox: after.outbox, ..before })
            &&& if connection_id == to && session is None {
                new.len() == 1 && is_reply(new[0], id, result)
            } else {
                new.len() == 0
            }
        }),
{
    names::lemma_reply_names();
    let after = before.answer(to, id, result);
    let message = model::reply_json(id, result);
    assert(session_in(message) is None);
    lemma_sent(before, after, to, message, connection_id, session);
}

/// The same of one that is refused.
pub(crate) proof fn lemma_refuse(
    before: State,
    to: u64,
    id: i64,
    code: i64,
    reason: Seq<char>,
    connection_id: u64,
    session: Option<Seq<char>>,
)
    ensures
        ({
            let after = before.refuse(to, id, code, reason);
            let new = news(before, after, connection_id, session);
            &&& extends(before, after)
            &&& after == (State { outbox: after.outbox, ..before })
            &&& if connection_id == to && session is None {
                new.len() == 1 && is_refusal(new[0], id, code as int, reason)
            } else {
                new.len() == 0
            }
        }),
{
    names::lemma_reply_names();
    names::lemma_error_names();
    let after = before.refuse(to, id, code, reason);
    let message = model::error_reply_json(id, code, reason);
    assert(session_in(message) is None);
    lemma_sent(before, after, to, message, connection_id, session);
}

} // verus!
