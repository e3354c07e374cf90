//! DOM trees, as the `DOM` domain shows them.
use serde_json::Value;
use vstd::prelude::*;

use crate::fxmap;
use crate::json;
use crate::json::Json;
use crate::json::Members;
use crate::model::DomNode;
use crate::model::DomNodeRef;
use crate::model::State;
use crate::server::CdpServer;

verus! {

/// An attribute of a node.
#[derive(Debug)]
pub struct Attribute {
    pub name: String,
    pub value: String,
}

/// What a script thread tells of a node.
#[derive(Debug)]
pub struct NodeInfo {
    pub unique_id: String,
    pub node_type: u16,
    pub node_name: String,
    pub node_value: Option<String>,
    pub num_children: usize,
    pub attrs: Vec<Attribute>,
    pub is_displayed: bool,
}

/// A node with those of its children that were read.
#[derive(Debug)]
pub struct NodeTree {
    pub info: NodeInfo,
    pub children: Vec<NodeTree>,
}

/// The children of a node are shown: the depth is not used up and there are
/// some.
pub open spec fn shows_children(info: NodeInfo, depth: i32) -> bool {
    depth > 0 && info.num_children > 0
}

/// Whether the children of a node are shown.
pub fn wants_children(info: &NodeInfo, depth: i32) -> (result: bool)
    ensures
        result == shows_children(*info, depth),
{
    depth > 0 && info.num_children > 0
}

/// The depth that is left below a node.
pub open spec fn below(depth: i32) -> i32 {
    if depth == i32::MIN {
        i32::MAX
    } else {
        (depth - 1) as i32
    }
}

/// The depth that is left below a node.
pub fn depth_below(depth: i32) -> (result: i32)
    ensures
        result == below(depth),
{
    if depth == i32::MIN {
        i32::MAX
    } else {
        depth - 1
    }
}

/// The names and values of attributes, in turn.
pub open spec fn attribute_list(attrs: Seq<Attribute>) -> Seq<Json>
    decreases attrs.len(),
{
    if attrs.len() == 0 {
        Seq::empty()
    } else {
        attribute_list(attrs.drop_last()).push(Json::Text(attrs.last().name@)).push(
            Json::Text(attrs.last().value@),
        )
    }
}

/// The members of a node, but for its children.
pub open spec fn node_members(node_id: i64, info: NodeInfo) -> Map<Seq<char>, Json> {
    map![
        "nodeId"@ => Json::Int(node_id as int),
        "backendNodeId"@ => Json::Int(node_id as int),
        "nodeType"@ => Json::Int(info.node_type as int),
        "nodeName"@ => Json::Text(info.node_name@),
        "nodeValue"@ => Json::Text(
            match info.node_value {
                Some(value) => value@,
                None => Seq::empty(),
            },
        ),
        "childNodeCount"@ => Json::Int(info.num_children as int),
        "attributes"@ => Json::Array(attribute_list(info.attrs@)),
        "isDisplayed"@ => Json::Bool(info.is_displayed),
    ]
}

/// A node gets the next node id.
pub open spec fn node_entered(state: State, pipeline_id: u64, info: NodeInfo) -> State {
    State {
        next_node_id: (state.next_node_id + 1) as i64,
        dom_nodes: state.dom_nodes.insert(
            state.next_node_id,
            DomNode { pipeline_id, unique_id: info.unique_id@ },
        ),
        ..state
    }
}

/// How a tree is shown, down to a depth. Its nodes get their ids in the order
/// of the document.
pub open spec fn tree_shown(state: State, pipeline_id: u64, tree: NodeTree, depth: i32) -> (
    State,
    Json,
)
    decreases tree,
{
    let entered = node_entered(state, pipeline_id, tree.info);
    let members = node_members(state.next_node_id, tree.info);
    if shows_children(tree.info, depth) {
        let (after, children) = trees_shown(entered, pipeline_id, tree.children@, depth);
        if children.len() > 0 {
            (after, Json::Object(members.insert("children"@, Json::Array(children))))
        } else {
            (after, Json::Object(members))
        }
    } else {
        (entered, Json::Object(members))
    }
}

/// How the children of a node are shown, one after the other, where `depth` is
/// that of the node.
pub open spec fn trees_shown(
    state: State,
    pipeline_id: u64,
    trees: Seq<NodeTree>,
    depth: i32,
) -> (State, Seq<Json>)
    decreases trees,
{
    if trees.len() == 0 {
        (state, Seq::empty())
    } else {
        let (middle, front) = trees_shown(state, pipeline_id, trees.drop_last(), depth);
        let (after, last) = tree_shown(middle, pipeline_id, trees.last(), below(depth));
        (after, front.push(last))
    }
}

/// The number of nodes that are shown of a tree.
pub open spec fn shown_count(tree: NodeTree, depth: i32) -> nat
    decreases tree,
{
    if shows_children(tree.info, depth) {
        1 + shown_counts(tree.children@, depth)
    } else {
        1
    }
}

/// The number of nodes that are shown below a node.
pub open spec fn shown_counts(trees: Seq<NodeTree>, depth: i32) -> nat
    decreases trees,
{
    if trees.len() == 0 {
        0
    } else {
        shown_counts(trees.drop_last(), depth) + shown_count(trees.last(), below(depth))
    }
}

proof fn lemma_counts_grow(trees: Seq<NodeTree>, n: int, depth: i32)
    requires
        0 <= n <= trees.len(),
    ensures
        shown_counts(trees.take(n), depth) <= shown_counts(trees, depth),
    decreases trees.len() - n,
{
    if n < trees.len() {
        assert(trees.take(n + 1).drop_last() =~= trees.take(n));
        lemma_counts_grow(trees, n + 1, depth);
    } else {
        assert(trees.take(n) =~= trees);
    }
}

/// Takes the number of nodes that are shown below a node off a budget, if it is
/// large enough.
pub(crate) fn spend(budget: u64, trees: &Vec<NodeTree>, depth: i32) -> (rest: Option<u64>)
    ensures
        match rest {
            Some(left) => left == budget - shown_counts(trees@, depth),
            None => shown_counts(trees@, depth) > budget,
        },
    decreases trees,
{
    let mut left: u64 = budget;
    let mut i: usize = 0;
    while i < trees.len()
        invariant
            i <= trees@.len(),
            left == budget - shown_counts(trees@.take(i as int), depth),
        decreases trees@.len() - i,
    {
        let ghost front = trees@.take(i + 1);
        proof {
            assert(front.drop_last() =~= trees@.take(i as int));
            assert(front.last() == trees@[i as int]);
            assert(shown_counts(front, depth) == shown_counts(trees@.take(i as int), depth)
                + shown_count(trees@[i as int], below(depth)));
            lemma_counts_grow(trees@, i + 1, depth);
        }
        if left == 0 {
            return None;
        }
        left -= 1;
        if wants_children(&trees[i].info, depth_below(depth)) {
            assert(decreases_to!(trees@ => trees@[i as int]));
            match spend(left, &trees[i].children, depth_below(depth)) {
                Some(rest) => {
                    left = rest;
                },
                None => {
                    return None;
                },
            }
        }
        i += 1;
    }
    assert(trees@.take(i as int) =~= trees@);
    Some(left)
}

/// The names and values of attributes, in turn.
fn attributes_json(attrs: &Vec<Attribute>) -> (value: Value)
    ensures
        json::json_of(value) == Json::Array(attribute_list(attrs@)),
{
    let mut list: Vec<Value> = Vec::new();
    let mut i: usize = 0;
    assert(json::jsons(list@) =~= attribute_list(attrs@.take(0)));
    while i < attrs.len()
        invariant
            i <= attrs@.len(),
            json::jsons(list@) == attribute_list(attrs@.take(i as int)),
        decreases attrs@.len() - i,
    {
        let ghost done = list@;
        assert(attrs@.take(i + 1).drop_last() =~= attrs@.take(i as int));
        list.push(json::string(attrs[i].name.as_str()));
        list.push(json::string(attrs[i].value.as_str()));
        assert(json::jsons(list@) =~= json::jsons(done).push(
            Json::Text(attrs@[i as int].name@),
        ).push(Json::Text(attrs@[i as int].value@)));
        i += 1;
    }
    assert(attrs@.take(i as int) =~= attrs@);
    json::array(list)
}

proof fn lemma_tree_shown_numbers(state: State, pipeline_id: u64, tree: NodeTree, depth: i32)
    requires
        state.next_node_id + shown_count(tree, depth) <= i64::MAX,
    ensures
        tree_shown(state, pipeline_id, tree, depth).0.next_node_id == state.next_node_id
            + shown_count(tree, depth),
    decreases tree,
{
    if shows_children(tree.info, depth) {
        lemma_trees_shown_numbers(
            node_entered(state, pipeline_id, tree.info),
            pipeline_id,
            tree.children@,
            depth,
        );
    }
}

proof fn lemma_trees_shown_numbers(
    state: State,
    pipeline_id: u64,
    trees: Seq<NodeTree>,
    depth: i32,
)
    requires
        state.next_node_id + shown_counts(trees, depth) <= i64::MAX,
    ensures
        trees_shown(state, pipeline_id, trees, depth).0.next_node_id == state.next_node_id
            + shown_counts(trees, depth),
    decreases trees,
{
    if trees.len() > 0 {
        lemma_trees_shown_numbers(state, pipeline_id, trees.drop_last(), depth);
        let middle = trees_shown(state, pipeline_id, trees.drop_last(), depth).0;
        lemma_tree_shown_numbers(middle, pipeline_id, trees.last(), below(depth));
    }
}

impl CdpServer {
    /// Recursively serializes a node and (up to `depth`) its children.
    pub(crate) fn dom_node_json(&mut self, pipeline_id: u64, tree: &NodeTree, depth: i32) -> (value:
        Value)
        requires
            old(self)@.next_node_id + shown_count(*tree, depth) <= i64::MAX,
        ensures
            (final(self)@, json::json_of(value)) == tree_shown(
                old(self)@,
                pipeline_id,
                *tree,
                depth,
            ),
        decreases tree,
    {
        let info = &tree.info;
        let node_id = self.next_node_id;
        self.next_node_id = node_id + 1;
        fxmap::fx_insert(
            &mut self.dom_nodes,
            node_id,
            DomNodeRef { pipeline_id, unique_id: info.unique_id.clone() },
        );
        let node_value = match &info.node_value {
            Some(value) => value.clone(),
            None => String::new(),
        };
        assert(node_value@ =~= match info.node_value {
            Some(value) => value@,
            None => Seq::empty(),
        });
        let mut json_node = Members::new().with("nodeId", json::integer(node_id)).with(
            "backendNodeId",
            json::integer(node_id),
        ).with("nodeType", json::unsigned(info.node_type as u64)).with(
            "nodeName",
            json::string(info.node_name.as_str()),
        ).with("nodeValue", json::string(node_value.as_str())).with(
            "childNodeCount",
            json::unsigned(info.num_children as u64),
        ).with("attributes", attributes_json(&info.attrs)).with(
            "isDisplayed",
            json::boolean(info.is_displayed),
        );
        if wants_children(info, depth) {
            let children = self.dom_children_json(pipeline_id, &tree.children, depth);
            if children.len() > 0 {
                json_node = json_node.with("children", json::array(children));
            }
        }
        json_node.value()
    }

    /// Serializes the children of a node.
    pub(crate) fn dom_children_json(
        &mut self,
        pipeline_id: u64,
        children: &Vec<NodeTree>,
        depth: i32,
    ) -> (list: Vec<Value>)
        requires
            old(self)@.next_node_id + shown_counts(children@, depth) <= i64::MAX,
        ensures
            (final(self)@, json::jsons(list@)) == trees_shown(
                old(self)@,
                pipeline_id,
                children@,
                depth,
            ),
        decreases children,
    {
        let ghost before = self@;
        let mut list: Vec<Value> = Vec::new();
        let mut i: usize = 0;
        assert(json::jsons(list@) =~= Seq::empty());
        while i < children.len()
            invariant
                i <= children@.len(),
                before.next_node_id + shown_counts(children@, depth) <= i64::MAX,
                (self@, json::jsons(list@)) == trees_shown(
                    before,
                    pipeline_id,
                    children@.take(i as int),
                    depth,
                ),
            decreases children@.len() - i,
        {
            let ghost done = list@;
            let ghost front = children@.take(i + 1);
            assert(front.drop_last() =~= children@.take(i as int));
            proof {
                lemma_counts_grow(children@, i + 1, depth);
                lemma_trees_shown_numbers(before, pipeline_id, children@.take(i as int), depth);
                assert(decreases_to!(children@ => children@[i as int]));
            }
            let child = self.dom_node_json(pipeline_id, &children[i], depth_below(depth));
            list.push(child);
            assert(json::jsons(list@) =~= json::jsons(done).push(json::json_of(child)));
            i += 1;
        }
        assert(children@.take(i as int) =~= children@);
        list
    }
}

} // verus!
