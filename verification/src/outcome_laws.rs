//! What clients get back: documents, children, boxes, values, screenshots, and
//! why there is none.
use vstd::prelude::*;

use crate::dom;
use crate::dom::Attribute;
use crate::dom::NodeTree;
use crate::encoding;
use crate::invariants;
use crate::json;
use crate::json::Json;
use crate::model;
use crate::model::DomNode;
use crate::model::PendingReply;
use crate::model::State;
use crate::model::TicketView;
use crate::names;
use crate::observe;
use crate::outcomes;
use crate::outcomes::ChildrenOutcome;
use crate::outcomes::CreateOutcome;
use crate::outcomes::DocumentOutcome;
use crate::outcomes::EvaluateOutcome;
use crate::outcomes::LayoutOutcome;
use crate::outcomes::NavigateOutcome;
use crate::outcomes::ScreenshotOutcome;
use crate::protocol;
use crate::session;
use crate::text;

verus! {

/// A list has the names and the values of attributes, in turn.
pub open spec fn lists_attributes(list: Seq<Json>, attrs: Seq<Attribute>) -> bool {
    &&& list.len() == 2 * attrs.len()
    &&& forall|i: int|
        0 <= i < attrs.len() ==> list[2 * i] == Json::Text((#[trigger] attrs[i]).name@) && list[2
            * i + 1] == Json::Text(attrs[i].value@)
}

/// A JSON value shows a node: its node id leads to it, and its type, its name,
/// its value, the number of its children, its attributes and whether it is
/// displayed are those that were reported. Where there is depth left, and the
/// node has children that were read, it shows them all, in order, with one less
/// depth.
pub open spec fn shows_node(
    shown: Json,
    tree: NodeTree,
    depth: int,
    pipeline_id: u64,
    nodes: Map<i64, DomNode>,
) -> bool
    decreases tree,
{
    let info = tree.info;
    let children = observe::items(observe::part(shown, "children"@));
    let open = depth > 0 && info.num_children > 0 && tree.children@.len() > 0;
    &&& observe::part(shown, "nodeId"@) matches Json::Int(n) && i64::MIN <= n <= i64::MAX
        && nodes.contains_key(n as i64) && nodes[n as i64] == (DomNode {
        pipeline_id,
        unique_id: info.unique_id@,
    })
    &&& observe::part(shown, "backendNodeId"@) == observe::part(shown, "nodeId"@)
    &&& observe::part(shown, "nodeType"@) == Json::Int(info.node_type as int)
    &&& observe::part(shown, "nodeName"@) == Json::Text(info.node_name@)
    &&& observe::part(shown, "nodeValue"@) matches Json::Text(value) && match info.node_value {
        Some(reported) => value == reported@,
        None => value.len() == 0,
    }
    &&& observe::part(shown, "childNodeCount"@) == Json::Int(info.num_children as int)
    &&& observe::part(shown, "isDisplayed"@) == Json::Bool(info.is_displayed)
    &&& observe::part(shown, "attributes"@) is Array
    &&& lists_attributes(observe::items(observe::part(shown, "attributes"@)), info.attrs@)
    &&& observe::holds(shown, "children"@) <==> open
    &&& open ==> {
        &&& observe::part(shown, "children"@) is Array
        &&& children.len() == tree.children@.len()
        &&& forall|i: int|
            0 <= i < tree.children@.len() ==> shows_node(
                #[trigger] children[i],
                tree.children@[i],
                depth - 1,
                pipeline_id,
                nodes,
            )
    }
}

proof fn lemma_shows_node_keeps(
    shown: Json,
    tree: NodeTree,
    depth: int,
    pipeline_id: u64,
    nodes: Map<i64, DomNode>,
    more: Map<i64, DomNode>,
)
    requires
        shows_node(shown, tree, depth, pipeline_id, nodes),
        nodes.submap_of(more),
    ensures
        shows_node(shown, tree, depth, pipeline_id, more),
    decreases tree,
{
    let n = observe::part(shown, "nodeId"@)->Int_0 as i64;
    assert(nodes.dom().contains(n));
    assert(more.dom().contains(n));
    let children = observe::items(observe::part(shown, "children"@));
    if depth > 0 && tree.info.num_children > 0 && tree.children@.len() > 0 {
        assert forall|i: int| 0 <= i < tree.children@.len() implies shows_node(
            #[trigger] children[i],
            tree.children@[i],
            depth - 1,
            pipeline_id,
            more,
        ) by {
            lemma_shows_node_keeps(
                children[i],
                tree.children@[i],
                depth - 1,
                pipeline_id,
                nodes,
                more,
            );
        }
    }
}

proof fn lemma_attributes(attrs: Seq<Attribute>)
    ensures
        lists_attributes(dom::attribute_list(attrs), attrs),
    decreases attrs.len(),
{
    if attrs.len() > 0 {
        let front = attrs.drop_last();
        lemma_attributes(front);
        let list = dom::attribute_list(attrs);
        assert forall|i: int| 0 <= i < attrs.len() implies list[2 * i] == Json::Text(
            (#[trigger] attrs[i]).name@,
        ) && list[2 * i + 1] == Json::Text(attrs[i].value@) by {
            if i < attrs.len() - 1 {
                assert(front[i] == attrs[i]);
            }
        }
    }
}

/// The depth that is left below a node.
pub open spec fn one_less(depth: i32) -> int {
    if depth == i32::MIN {
        i32::MAX as int
    } else {
        depth - 1
    }
}

/// What is sent of a tree shows its root, and below it the children.
pub proof fn law_tree_shows_its_nodes(
    before: State,
    pipeline_id: u64,
    tree: NodeTree,
    depth: i32,
)
    requires
        invariants::wf(before),
        before.next_node_id + dom::shown_count(tree, depth) <= i64::MAX,
    ensures
        ({
            let (after, shown) = dom::tree_shown(before, pipeline_id, tree, depth);
            &&& shows_node(shown, tree, depth as int, pipeline_id, after.dom_nodes)
            &&& observe::part(shown, "nodeId"@) == Json::Int(before.next_node_id as int)
            &&& before.dom_nodes.submap_of(after.dom_nodes)
        }),
    decreases tree, 0nat,
{
    names::lemma_node_names();
    lemma_attributes(tree.info.attrs@);
    invariants::law_tree_gets_fresh_node_ids(before, pipeline_id, tree, depth);
    let (after, shown) = dom::tree_shown(before, pipeline_id, tree, depth);
    assert forall|id: i64| #[trigger] before.dom_nodes.dom().contains(id) implies
        after.dom_nodes.dom().contains(id) && before.dom_nodes[id] == after.dom_nodes[id] by {
        assert(before.dom_nodes.contains_key(id));
        assert(after.dom_nodes.contains_key(id) == before.dom_nodes.contains_key(id));
    }
    if dom::shows_children(tree.info, depth) {
        let entered = dom::node_entered(before, pipeline_id, tree.info);
        assert forall|id: i64| #[trigger] entered.dom_nodes.contains_key(id) implies id
            < entered.next_node_id by {
            if id != before.next_node_id {
                assert(before.dom_nodes.contains_key(id));
            }
        }
        assert(invariants::wf(entered));
        law_trees_show_their_nodes(entered, pipeline_id, tree.children@, depth);
    }
}

/// The same of the children of a node, each with one less depth than the node.
pub proof fn law_trees_show_their_nodes(
    before: State,
    pipeline_id: u64,
    trees: Seq<NodeTree>,
    depth: i32,
)
    requires
        invariants::wf(before),
        before.next_node_id + dom::shown_counts(trees, depth) <= i64::MAX,
    ensures
        ({
            let (after, shown) = dom::trees_shown(before, pipeline_id, trees, depth);
            &&& shown.len() == trees.len()
            &&& before.dom_nodes.submap_of(after.dom_nodes)
            &&& forall|i: int|
                0 <= i < trees.len() ==> shows_node(
                    #[trigger] shown[i],
                    trees[i],
                    one_less(depth),
                    pipeline_id,
                    after.dom_nodes,
                )
        }),
    decreases trees, 1nat,
{
    if trees.len() > 0 {
        let front = trees.drop_last();
        let (middle, some) = dom::trees_shown(before, pipeline_id, front, depth);
        let (after, shown) = dom::trees_shown(before, pipeline_id, trees, depth);
        law_trees_show_their_nodes(before, pipeline_id, front, depth);
        invariants::law_trees_get_fresh_node_ids(before, pipeline_id, front, depth);
        assert(decreases_to!(trees => trees[trees.len() - 1]));
        law_tree_shows_its_nodes(middle, pipeline_id, trees.last(), dom::below(depth));
        assert forall|i: int| 0 <= i < trees.len() implies shows_node(
            #[trigger] shown[i],
            trees[i],
            one_less(depth),
            pipeline_id,
            after.dom_nodes,
        ) by {
            if i < front.len() {
                assert(front[i] == trees[i]);
                assert(some[i] == shown[i]);
                lemma_shows_node_keeps(
                    some[i],
                    trees[i],
                    one_less(depth),
                    pipeline_id,
                    middle.dom_nodes,
                    after.dom_nodes,
                );
            }
        }
        assert forall|id: i64| #[trigger] before.dom_nodes.dom().contains(id) implies
            after.dom_nodes.dom().contains(id) && before.dom_nodes[id] == after.dom_nodes[id] by {
            assert(middle.dom_nodes.dom().contains(id));
        }
    }
}

/// A node without children to show is one node that is shown. Any other is one
/// more than its children, which are counted one by one with one less depth.
pub proof fn law_shown_nodes_are_counted(
    tree: NodeTree,
    trees: Seq<NodeTree>,
    last: NodeTree,
    depth: i32,
)
    ensures
        depth <= 0 || tree.info.num_children == 0 ==> dom::shown_count(tree, depth) == 1,
        depth > 0 && tree.info.num_children > 0 ==> dom::shown_count(tree, depth) == 1
            + dom::shown_counts(tree.children@, depth),
        depth > 0 ==> dom::shown_counts(trees.push(last), depth) == dom::shown_counts(trees, depth)
            + dom::shown_count(last, (depth - 1) as i32),
        dom::shown_counts(Seq::empty(), depth) == 0,
{
    assert(trees.push(last).drop_last() =~= trees);
}

/// A reply to the command goes to the session on the connection.
pub open spec fn is_for(ticket: TicketView, connection_id: u64, session: Option<Seq<char>>) -> bool {
    &&& ticket.id is Some
    &&& connection_id == ticket.connection_id
    &&& session == Some(ticket.session_id)
}

/// A message is a reply to the command, with that result.
pub open spec fn replies(message: Json, ticket: TicketView, result: Json) -> bool {
    observe::is_reply(message, ticket.id->Some_0, result)
}

/// A message says that the command failed, and why.
pub open spec fn fails(message: Json, ticket: TicketView, reason: Seq<char>) -> bool {
    observe::is_refusal(message, ticket.id->Some_0, -32000, reason)
}

/// The result in a reply to the command.
pub open spec fn result_in(message: Json) -> Json {
    observe::part(message, "result"@)
}

/// A document that was read is the only answer to the command, and shows every
/// node down to the depth; where there is none it is said why.
pub proof fn law_document_is_shown(
    before: State,
    ticket: TicketView,
    pipeline_id: u64,
    depth: i32,
    outcome: DocumentOutcome,
    connection_id: u64,
    session: Option<Seq<char>>,
)
    requires
        invariants::wf(before),
        outcomes::document_fits(before, outcome, depth),
    ensures
        ({
            let after = outcomes::document_finished(before, ticket, pipeline_id, depth, outcome);
            let new = observe::news(before, after, connection_id, session);
            &&& observe::extends(before, after)
            &&& if is_for(ticket, connection_id, session) {
                &&& new.len() == 1
                &&& match outcome {
                    DocumentOutcome::NoChannel => fails(
                        new[0],
                        ticket,
                        "Could not create DOM channel"@,
                    ),
                    DocumentOutcome::Gone => fails(new[0], ticket, "Target is gone"@),
                    DocumentOutcome::TimedOut => fails(
                        new[0],
                        ticket,
                        "Reading the document timed out"@,
                    ),
                    DocumentOutcome::NoDocument => fails(
                        new[0],
                        ticket,
                        "Could not read the document"@,
                    ),
                    DocumentOutcome::Read(tree) => {
                        &&& replies(new[0], ticket, result_in(new[0]))
                        &&& shows_node(
                            observe::part(result_in(new[0]), "root"@),
                            tree,
                            depth as int,
                            pipeline_id,
                            after.dom_nodes,
                        )
                    },
                }
            } else {
                new.len() == 0
            }
        }),
{
    let after = outcomes::document_finished(before, ticket, pipeline_id, depth, outcome);
    let c = connection_id;
    let code = protocol::ERROR_SERVER_ERROR;
    match outcome {
        DocumentOutcome::NoChannel => {
            observe::lemma_session_refuse(
                before,
                ticket,
                code,
                "Could not create DOM channel"@,
                c,
                session,
            );
        },
        DocumentOutcome::Gone => {
            observe::lemma_session_refuse(before, ticket, code, "Target is gone"@, c, session);
        },
        DocumentOutcome::TimedOut => {
            observe::lemma_session_refuse(
                before,
                ticket,
                code,
                "Reading the document timed out"@,
                c,
                session,
            );
        },
        DocumentOutcome::NoDocument => {
            observe::lemma_session_refuse(
                before,
                ticket,
                code,
                "Could not read the document"@,
                c,
                session,
            );
        },
        DocumentOutcome::Read(tree) => {
            law_tree_shows_its_nodes(before, pipeline_id, tree, depth);
            invariants::law_tree_gets_fresh_node_ids(before, pipeline_id, tree, depth);
            let (middle, root) = dom::tree_shown(before, pipeline_id, tree, depth);
            let result = Json::Object(map!["root"@ => root]);
            observe::lemma_quiet(before, middle, c, session);
            observe::lemma_session_answer(middle, ticket, result, c, session);
            observe::lemma_news_compose(before, middle, after, c, session);
        },
    }
}

/// The children of a node that were read go to the session as an event under
/// the id of the node, each shown down to what is left of the depth, and the
/// command is answered behind it. Where they cannot be read there are none.
pub proof fn law_children_are_shown(
    before: State,
    ticket: TicketView,
    node_id: i64,
    pipeline_id: u64,
    depth: i32,
    outcome: ChildrenOutcome,
    connection_id: u64,
    session: Option<Seq<char>>,
)
    requires
        invariants::wf(before),
        outcomes::children_fit(before, outcome, depth),
    ensures
        ({
            let after = outcomes::children_finished(
                before,
                ticket,
                node_id,
                pipeline_id,
                depth,
                outcome,
            );
            let new = observe::news(before, after, connection_id, session);
            let nodes = observe::items(observe::parameter(new[0], "nodes"@));
            let own = connection_id == ticket.connection_id && session == Some(ticket.session_id);
            &&& observe::extends(before, after)
            &&& if outcome is TimedOut {
                if is_for(ticket, connection_id, session) {
                    new.len() == 1 && fails(new[0], ticket, "Reading the children timed out"@)
                } else {
                    new.len() == 0
                }
            } else if own {
                &&& new.len() == if ticket.id is Some {
                    2int
                } else {
                    1
                }
                &&& observe::is_event(new[0], "DOM.setChildNodes"@)
                &&& observe::parameter(new[0], "parentId"@) == Json::Int(node_id as int)
                &&& observe::parameter(new[0], "nodes"@) is Array
                &&& match outcome {
                    ChildrenOutcome::Read(trees) => {
                        &&& nodes.len() == trees@.len()
                        &&& forall|i: int|
                            0 <= i < nodes.len() ==> shows_node(
                                #[trigger] nodes[i],
                                trees@[i],
                                one_less(depth),
                                pipeline_id,
                                after.dom_nodes,
                            )
                    },
                    _ => nodes.len() == 0,
                }
                &&& ticket.id is Some ==> replies(new[1], ticket, Json::Object(Map::empty()))
            } else {
                new.len() == 0
            }
        }),
{
    let after = outcomes::children_finished(before, ticket, node_id, pipeline_id, depth, outcome);
    let c = connection_id;
    names::lemma_reply_names();
    names::lemma_children_names();
    if outcome is TimedOut {
        observe::lemma_session_refuse(
            before,
            ticket,
            protocol::ERROR_SERVER_ERROR,
            "Reading the children timed out"@,
            c,
            session,
        );
    } else {
        let trees = outcomes::shown_children(outcome);
        law_trees_show_their_nodes(before, pipeline_id, trees, depth);
        invariants::law_trees_get_fresh_node_ids(before, pipeline_id, trees, depth);
        let (middle, nodes) = dom::trees_shown(before, pipeline_id, trees, depth);
        let event = session::children_event(node_id, nodes);
        let message = model::with_session(event, ticket.session_id);
        let sent = middle.send(ticket.connection_id, message);
        observe::lemma_with_session(event, ticket.session_id);
        observe::lemma_quiet(before, middle, c, session);
        observe::lemma_sent(middle, sent, ticket.connection_id, message, c, session);
        observe::lemma_session_answer(sent, ticket, Json::Object(Map::empty()), c, session);
        observe::lemma_news_compose(before, middle, sent, c, session);
        observe::lemma_news_compose(before, sent, after, c, session);
    }
}

/// A list has the corners of a box at the origin: top left, top right, bottom
/// right and bottom left, each with its horizontal coordinate first.
pub open spec fn is_box(corners: Json, width: Json, height: Json) -> bool {
    let list = observe::items(corners);
    let zero = Json::Float(0);
    &&& list.len() == 8
    &&& list[0] == zero && list[1] == zero
    &&& list[2] == width && list[3] == zero
    &&& list[4] == width && list[5] == height
    &&& list[6] == zero && list[7] == height
}

/// A layout that was computed gives a box of its width and its height; where
/// there is none it is said why. Nothing else changes.
pub proof fn law_layout_gives_a_box(
    before: State,
    ticket: TicketView,
    outcome: LayoutOutcome,
    connection_id: u64,
    session: Option<Seq<char>>,
)
    ensures
        ({
            let after = outcomes::layout_finished(before, ticket, outcome);
            let new = observe::news(before, after, connection_id, session);
            &&& after == (State { outbox: after.outbox, ..before })
            &&& observe::extends(before, after)
            &&& if is_for(ticket, connection_id, session) {
                &&& new.len() == 1
                &&& match outcome {
                    LayoutOutcome::NoChannel => fails(
                        new[0],
                        ticket,
                        "Could not create layout channel"@,
                    ),
                    LayoutOutcome::Gone => fails(new[0], ticket, "Target is gone"@),
                    LayoutOutcome::TimedOut => fails(
                        new[0],
                        ticket,
                        "Computing the box model timed out"@,
                    ),
                    LayoutOutcome::NoLayout => fails(
                        new[0],
                        ticket,
                        "Could not compute the box model of the node"@,
                    ),
                    LayoutOutcome::Computed { width, height } => {
                        let model = observe::part(result_in(new[0]), "model"@);
                        let w = json::json_of(width);
                        let h = json::json_of(height);
                        &&& replies(new[0], ticket, result_in(new[0]))
                        &&& observe::part(model, "width"@) == w
                        &&& observe::part(model, "height"@) == h
                        &&& is_box(observe::part(model, "content"@), w, h)
                        &&& is_box(observe::part(model, "padding"@), w, h)
                        &&& is_box(observe::part(model, "border"@), w, h)
                        &&& is_box(observe::part(model, "margin"@), w, h)
                    },
                }
            } else {
                new.len() == 0
            }
        }),
{
    let c = connection_id;
    let code = protocol::ERROR_SERVER_ERROR;
    names::lemma_box_names();
    match outcome {
        LayoutOutcome::NoChannel => {
            observe::lemma_session_refuse(
                before,
                ticket,
                code,
                "Could not create layout channel"@,
                c,
                session,
            );
        },
        LayoutOutcome::Gone => {
            observe::lemma_session_refuse(before, ticket, code, "Target is gone"@, c, session);
        },
        LayoutOutcome::TimedOut => {
            observe::lemma_session_refuse(
                before,
                ticket,
                code,
                "Computing the box model timed out"@,
                c,
                session,
            );
        },
        LayoutOutcome::NoLayout => {
            observe::lemma_session_refuse(
                before,
                ticket,
                code,
                "Could not compute the box model of the node"@,
                c,
                session,
            );
        },
        LayoutOutcome::Computed { width, height } => {
            let result = outcomes::box_reply(json::json_of(width), json::json_of(height));
            observe::lemma_session_answer(before, ticket, result, c, session);
        },
    }
}

/// An object says that an exception was thrown, and describes it.
pub open spec fn describes_exception(details: Json, message: Option<String>) -> bool {
    let exception = observe::part(details, "exception"@);
    &&& observe::part(details, "exceptionId"@) == Json::Int(1)
    &&& observe::part(details, "text"@) == Json::Text("Uncaught"@)
    &&& observe::part(details, "lineNumber"@) == Json::Int(0)
    &&& observe::part(details, "columnNumber"@) == Json::Int(0)
    &&& observe::part(exception, "type"@) == Json::Text("object"@)
    &&& observe::part(exception, "subtype"@) == Json::Text("error"@)
    &&& observe::part(exception, "className"@) == Json::Text("Error"@)
    &&& observe::part(exception, "description"@) matches Json::Text(description) && match message {
        Some(reported) => description == reported@,
        None => description == "Exception"@,
    }
}

/// A value that an evaluation gave is the only answer to the command, as a
/// remote object; an exception is described beside an error object. Where there
/// is neither it is said why. Nothing else changes.
pub proof fn law_evaluation_gives_its_value(
    before: State,
    ticket: TicketView,
    outcome: EvaluateOutcome,
    connection_id: u64,
    session: Option<Seq<char>>,
)
    ensures
        ({
            let after = outcomes::evaluate_finished(before, ticket, outcome);
            let new = observe::news(before, after, connection_id, session);
            &&& after == (State { outbox: after.outbox, ..before })
            &&& observe::extends(before, after)
            &&& if is_for(ticket, connection_id, session) {
                &&& new.len() == 1
                &&& match outcome {
                    EvaluateOutcome::NoChannel => fails(
                        new[0],
                        ticket,
                        "Could not create evaluation channel"@,
                    ),
                    EvaluateOutcome::Gone => fails(new[0], ticket, "Target is gone"@),
                    EvaluateOutcome::TimedOut => fails(new[0], ticket, "Evaluation timed out"@),
                    EvaluateOutcome::Replied { value, has_exception, exception_message } => {
                        let object = observe::part(result_in(new[0]), "result"@);
                        let details = observe::part(result_in(new[0]), "exceptionDetails"@);
                        &&& replies(new[0], ticket, result_in(new[0]))
                        &&& observe::holds(result_in(new[0]), "exceptionDetails"@) == has_exception
                        &&& !has_exception ==> object == protocol::remote_object(value)
                        &&& has_exception ==> {
                            &&& describes_exception(details, exception_message)
                            &&& observe::part(object, "type"@) == Json::Text("object"@)
                            &&& observe::part(object, "subtype"@) == Json::Text("error"@)
                            &&& !observe::holds(object, "value"@)
                        }
                    },
                }
            } else {
                new.len() == 0
            }
        }),
{
    let c = connection_id;
    let code = protocol::ERROR_SERVER_ERROR;
    names::lemma_reply_names();
    names::lemma_exception_names();
    names::lemma_object_names();
    match outcome {
        EvaluateOutcome::NoChannel => {
            observe::lemma_session_refuse(
                before,
                ticket,
                code,
                "Could not create evaluation channel"@,
                c,
                session,
            );
        },
        EvaluateOutcome::Gone => {
            observe::lemma_session_refuse(before, ticket, code, "Target is gone"@, c, session);
        },
        EvaluateOutcome::TimedOut => {
            observe::lemma_session_refuse(before, ticket, code, "Evaluation timed out"@, c, session);
        },
        EvaluateOutcome::Replied { value, has_exception, exception_message } => {
            let result = outcomes::evaluate_reply(
                value,
                has_exception,
                outcomes::optional_string(exception_message),
            );
            observe::lemma_session_answer(before, ticket, result, c, session);
        },
    }
}

/// A script thread that was told, or could not be: the command is answered with
/// an empty object, or refused. Nothing else changes.
pub proof fn law_script_command_is_confirmed(
    before: State,
    ticket: TicketView,
    sent: bool,
    connection_id: u64,
    session: Option<Seq<char>>,
)
    ensures
        ({
            let after = outcomes::script_finished(before, ticket, sent);
            let new = observe::news(before, after, connection_id, session);
            &&& after == (State { outbox: after.outbox, ..before })
            &&& observe::extends(before, after)
            &&& if is_for(ticket, connection_id, session) {
                &&& new.len() == 1
                &&& sent ==> replies(new[0], ticket, Json::Object(Map::empty()))
                &&& !sent ==> fails(new[0], ticket, "Target is gone"@)
            } else {
                new.len() == 0
            }
        }),
{
    observe::lemma_session_answer(
        before,
        ticket,
        Json::Object(Map::empty()),
        connection_id,
        session,
    );
    observe::lemma_session_refuse(
        before,
        ticket,
        protocol::ERROR_SERVER_ERROR,
        "Target is gone"@,
        connection_id,
        session,
    );
}

/// A text that is no URL is not navigated to, whatever the pipeline; a URL is told
/// to the pipeline, or not at all, for the reason why there is none.
pub proof fn law_navigation_is_decided(is_url: bool, pipeline: Result<u64, String>)
    ensures
        match outcomes::navigation_choice(is_url, pipeline) {
            Ok(pipeline_id) => is_url && pipeline == Ok::<u64, String>(pipeline_id),
            Err(NavigateOutcome::InvalidUrl) => !is_url,
            Err(NavigateOutcome::Unavailable(reason)) => is_url && pipeline == Err::<u64, String>(
                reason,
            ),
            Err(_) => false,
        },
{
}

/// The reply to a navigation names the frame. It has a loader where the
/// navigation was sent, and else an error.
pub proof fn law_navigation_is_reported(frame_id: Seq<char>, outcome: NavigateOutcome)
    ensures
        ({
            let reply = outcomes::navigate_reply(frame_id, outcome);
            &&& reply is Object
            &&& observe::part(reply, "frameId"@) == Json::Text(frame_id)
            &&& observe::holds(reply, "loaderId"@) == outcome is Sent
            &&& observe::holds(reply, "errorText"@) == !(outcome is Sent)
            &&& match outcome {
                NavigateOutcome::InvalidUrl => observe::part(reply, "errorText"@) == Json::Text(
                    "ERR_INVALID_URL"@,
                ),
                NavigateOutcome::Unavailable(reason) => observe::part(reply, "errorText"@)
                    == Json::Text(reason@),
                NavigateOutcome::Gone => observe::part(reply, "errorText"@) == Json::Text(
                    "Target is gone"@,
                ),
                NavigateOutcome::Sent => observe::part(reply, "loaderId"@) == Json::Text(""@),
            }
        }),
{
    names::lemma_navigate_names();
}

/// The reply to a screenshot that was taken has the PNG file of the image, of its
/// own width and height, in base64: the file can be had back from it. Where
/// there is none it is said why. Nothing else changes.
pub proof fn law_screenshot_holds_the_image(
    before: State,
    ticket: TicketView,
    outcome: ScreenshotOutcome,
    connection_id: u64,
    session: Option<Seq<char>>,
)
    ensures
        ({
            let after = outcomes::screenshot_finished(before, ticket, outcome);
            let new = observe::news(before, after, connection_id, session);
            &&& after == (State { outbox: after.outbox, ..before })
            &&& observe::extends(before, after)
            &&& if is_for(ticket, connection_id, session) {
                &&& new.len() == 1
                &&& match outcome {
                    ScreenshotOutcome::Failed(error) => fails(
                        new[0],
                        ticket,
                        "Could not take a screenshot: "@ + error@,
                    ),
                    ScreenshotOutcome::TimedOut => fails(
                        new[0],
                        ticket,
                        "Taking a screenshot timed out"@,
                    ),
                    ScreenshotOutcome::Taken { width, height, rgba } => {
                        match encoding::png_file(width, height, rgba@) {
                            Ok(file) => {
                                &&& replies(new[0], ticket, result_in(new[0]))
                                &&& observe::part(result_in(new[0]), "data"@) matches Json::Text(
                                    data,
                                ) && encoding::base64_bytes(data) == file
                            },
                            Err(error) => fails(
                                new[0],
                                ticket,
                                "Could not encode the screenshot: "@ + error,
                            ),
                        }
                    },
                }
            } else {
                new.len() == 0
            }
        }),
{
    let c = connection_id;
    let code = protocol::ERROR_SERVER_ERROR;
    match outcome {
        ScreenshotOutcome::Failed(error) => {
            observe::lemma_session_refuse(
                before,
                ticket,
                code,
                "Could not take a screenshot: "@ + error@,
                c,
                session,
            );
        },
        ScreenshotOutcome::TimedOut => {
            observe::lemma_session_refuse(
                before,
                ticket,
                code,
                "Taking a screenshot timed out"@,
                c,
                session,
            );
        },
        ScreenshotOutcome::Taken { width, height, rgba } => {
            match encoding::png_file(width, height, rgba@) {
                Ok(file) => {
                    encoding::law_base64_can_be_undone(file);
                    let result = Json::Object(
                        map!["data"@ => Json::Text(encoding::base64_text(file))],
                    );
                    observe::lemma_session_answer(before, ticket, result, c, session);
                },
                Err(error) => {
                    observe::lemma_session_refuse(
                        before,
                        ticket,
                        code,
                        "Could not encode the screenshot: "@ + error,
                        c,
                        session,
                    );
                },
            }
        },
    }
}

/// A target that the browser opened is answered later: its id, the next free
/// one, is set aside for its web view, with the command that asked for it. Where
/// none was opened it is said why, and nothing changes.
pub proof fn law_target_is_opened(
    before: State,
    to: u64,
    id: i64,
    outcome: CreateOutcome,
    connection_id: u64,
    session: Option<Seq<char>>,
)
    requires
        before.next_target_number < u64::MAX,
    ensures
        ({
            let after = outcomes::create_finished(before, to, id, outcome);
            let new = observe::news(before, after, connection_id, session);
            &&& observe::extends(before, after)
            &&& match outcome {
                CreateOutcome::Created(webview_id) => {
                    &&& new.len() == 0
                    &&& after == (State {
                        next_target_number: (before.next_target_number + 1) as u64,
                        pending_targets: before.pending_targets.insert(
                            webview_id,
                            "page-"@ + text::decimal(before.next_target_number as nat),
                        ),
                        pending_create_replies: before.pending_create_replies.insert(
                            webview_id,
                            PendingReply { connection_id: to, id },
                        ),
                        ..before
                    })
                },
                _ => {
                    &&& after == (State { outbox: after.outbox, ..before })
                    &&& if connection_id == to && session is None {
                        &&& new.len() == 1
                        &&& outcome is InvalidUrl ==> observe::is_refusal(
                            new[0],
                            id,
                            -32600,
                            "invalid 'url' parameter"@,
                        )
                        &&& outcome is NoChannel ==> observe::is_refusal(
                            new[0],
                            id,
                            -32000,
                            "Could not create a channel for the new target"@,
                        )
                        &&& outcome is Refused ==> observe::is_refusal(
                            new[0],
                            id,
                            -32000,
                            "The embedder refused to create a new target"@,
                        )
                    } else {
                        new.len() == 0
                    }
                },
            }
        }),
{
    let after = outcomes::create_finished(before, to, id, outcome);
    match outcome {
        CreateOutcome::Created(_) => {
            observe::lemma_quiet(before, after, connection_id, session);
        },
        CreateOutcome::InvalidUrl => {
            observe::lemma_refuse(
                before,
                to,
                id,
                protocol::ERROR_INVALID_REQUEST,
                "invalid 'url' parameter"@,
                connection_id,
                session,
            );
        },
        CreateOutcome::NoChannel => {
            observe::lemma_refuse(
                before,
                to,
                id,
                protocol::ERROR_SERVER_ERROR,
                "Could not create a channel for the new target"@,
                connection_id,
                session,
            );
        },
        CreateOutcome::Refused => {
            observe::lemma_refuse(
                before,
                to,
                id,
                protocol::ERROR_SERVER_ERROR,
                "The embedder refused to create a new target"@,
                connection_id,
                session,
            );
        },
    }
}

/// A target that the browser closed loses its sessions, and no other target
/// does; the command is answered with an empty object. Where it could not be
/// closed the command is refused, and nothing changes.
pub proof fn law_target_is_closed(
    before: State,
    to: u64,
    id: i64,
    name: Seq<char>,
    closed: bool,
    connection_id: u64,
    session: Option<Seq<char>>,
)
    ensures
        ({
            let after = outcomes::close_finished(before, to, id, name, closed);
            let new = observe::news(before, after, connection_id, session);
            &&& observe::extends(before, after)
            &&& after == (State { outbox: after.outbox, sessions: after.sessions, ..before })
            &&& forall|s: Seq<char>| #[trigger]
                after.sessions.contains_key(s) <==> before.sessions.contains_key(s) && !(closed
                    && before.targets.contains_key(before.sessions[s].target_id)
                    && before.targets[before.sessions[s].target_id].target_id_string == name)
            &&& forall|s: Seq<char>|
                after.sessions.contains_key(s) ==> #[trigger] after.sessions[s]
                    == before.sessions[s]
            &&& if connection_id == to && session is None {
                &&& new.len() == 1
                &&& closed ==> observe::is_reply(new[0], id, Json::Object(Map::empty()))
                &&& !closed ==> observe::is_refusal(
                    new[0],
                    id,
                    -32000,
                    "Could not create a channel to close the target"@,
                )
            } else {
                new.len() == 0
            }
        }),
{
    let after = outcomes::close_finished(before, to, id, name, closed);
    let without = before.without_sessions(outcomes::sessions_on(before, name));
    let c = connection_id;
    if closed {
        observe::lemma_quiet(before, without, c, session);
        observe::lemma_answer(without, to, id, Json::Object(Map::empty()), c, session);
        observe::lemma_news_compose(before, without, after, c, session);
    } else {
        observe::lemma_refuse(
            before,
            to,
            id,
            protocol::ERROR_SERVER_ERROR,
            "Could not create a channel to close the target"@,
            c,
            session,
        );
    }
}

} // verus!
