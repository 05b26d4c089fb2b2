//! Just enough of herdr's socket API for the notes: newline-delimited JSON.
//!
//! Sending a request and reading the line that answers it is the caller's part.
use crate::json::{member, Json, Tree};
use crate::paths::{join, joined};
use crate::text::{trim, trimmed};
use crate::wire::{
    contents, display, is_plain, object, pairs_of, parse, parsed, reading, rendered, string, Fault,
    Reading, MAX_DEPTH,
};
use serde_json::Value;
use vstd::prelude::*;
use vstd::utf8::encode_utf8;

verus! {

/// The socket of herdr's default session, seen from the home directory.
pub const DEFAULT_SOCKET: &'static str = ".config/herdr/herdr.sock";

/// The path of herdr's socket: herdr exports one into its panes; elsewhere, it is the default
/// session's, in the home directory.
pub fn socket(exported: Option<Vec<u8>>, home: Option<Vec<u8>>) -> (r: Vec<u8>)
    requires
        exported is Some || home is Some,
    ensures
        r@ == match exported {
            Some(path) => path@,
            None => joined(home->0@, encode_utf8(DEFAULT_SOCKET@)),
        },
{
    match (exported, home) {
        (Some(path), _) => path,
        (None, Some(home)) => join(&home, DEFAULT_SOCKET),
        (None, None) => Vec::new(),
    }
}

/// Why a reply of herdr has no answer.
#[derive(Debug)]
pub enum HerdrError {
    /// The reply is no JSON.
    Malformed(Fault),
    /// The reply holds no result. This is the reply.
    Refused(String),
    /// The result holds no such list. This says which.
    Missing(String),
}

/// What an `HerdrError` says.
pub enum Complaint {
    Malformed { eof: bool, message: Seq<char> },
    Refused(Seq<char>),
    Missing(Seq<char>),
}

impl View for HerdrError {
    type V = Complaint;

    open spec fn view(&self) -> Complaint {
        match self {
            HerdrError::Malformed(fault) => Complaint::Malformed {
                eof: fault.eof,
                message: fault.message@,
            },
            HerdrError::Refused(line) => Complaint::Refused(line@),
            HerdrError::Missing(what) => Complaint::Missing(what@),
        }
    }
}

/// The request for `method` with `params`.
pub open spec fn request_tree(method: Seq<char>, params: Tree) -> Tree {
    Tree::Object(
        Map::empty().insert("id"@, Tree::String("1"@)).insert(
            "method"@,
            Tree::String(method),
        ).insert("params"@, params),
    )
}

/// A request is one level deeper than its parameters.
proof fn request_is_plain(method: Seq<char>, params: Tree)
    requires
        is_plain(params, (MAX_DEPTH - 1) as nat),
    ensures
        is_plain(request_tree(method, params), MAX_DEPTH as nat),
{
    let members = request_tree(method, params)->Object_0;
    assert forall|key: Seq<char>| #[trigger] members.contains_key(key) implies is_plain(
        members[key],
        (MAX_DEPTH - 1) as nat,
    ) by {
        reveal_with_fuel(is_plain, 2);
    }
}

/// The line that asks herdr for `method` with `params`: one line of JSON. It reads back as the
/// request, unless `params` hold doubles or are nested too deep to be read.
pub fn request(method: &str, params: Value) -> (line: String)
    ensures
        line@ == rendered(request_tree(method@, contents(params))).push('\n'),
        !line@.drop_last().contains('\n'),
        is_plain(contents(params), (MAX_DEPTH - 1) as nat) ==> parsed(line@) == Reading::Whole(
            request_tree(method@, contents(params)),
        ),
{
    let ghost tree = request_tree(method@, contents(params));
    let mut members: Vec<(String, Value)> = Vec::new();
    members.push(("id".to_owned(), string("1")));
    members.push(("method".to_owned(), string(method)));
    members.push(("params".to_owned(), params));
    proof {
        reveal_strlit("id");
        reveal_strlit("method");
        reveal_strlit("params");
        reveal_strlit("\n");
        assert("id"@.len() != "method"@.len());
        assert("id"@.len() != "params"@.len());
        assert("method"@[0] != "params"@[0]);
        reveal_with_fuel(pairs_of, 4);
        assert(members@.drop_last().drop_last().drop_last() =~= Seq::<(String, Value)>::empty());
    }
    let whole = object(members);
    let mut line = display(&whole);
    let ghost text = line@;
    line.append("\n");
    proof {
        assert(contents(whole) == tree);
        if is_plain(contents(params), (MAX_DEPTH - 1) as nat) {
            request_is_plain(method@, contents(params));
        }
        assert(line@ =~= text.push('\n'));
        assert(line@.drop_last() =~= text);
    }
    line
}

/// The values of a list of `Json`.
pub open spec fn trees(list: Seq<Json>) -> Seq<Tree> {
    Seq::new(list.len(), |i: int| list[i]@)
}

/// The values of a list of `Json`, as far as equality tells them apart.
pub open spec fn normals(list: Seq<Json>) -> Seq<Tree> {
    Seq::new(list.len(), |i: int| list[i]@.normal())
}

/// The result in a reply, which was read from `line`. A reply without one is a complaint.
pub open spec fn result_in(reply: Reading, line: Seq<char>) -> Result<Tree, Complaint> {
    match reply {
        Reading::Broken { eof, message } => Err(Complaint::Malformed { eof, message }),
        Reading::Whole(Tree::Object(members)) if members.contains_key("result"@) => Ok(
            members["result"@],
        ),
        Reading::Whole(_) => Err(Complaint::Refused(trimmed(line))),
    }
}

/// The list `key` in the result of `method`.
pub open spec fn list_in(
    result: Result<Tree, Complaint>,
    method: Seq<char>,
    key: Seq<char>,
) -> Result<Seq<Tree>, Complaint> {
    match result {
        Err(complaint) => Err(complaint),
        Ok(result) => match member(result, key) {
            Tree::Array(items) => Ok(items),
            _ => Err(Complaint::Missing("no "@ + key + " from "@ + method)),
        },
    }
}

/// What a result or a complaint says.
pub open spec fn outcome(r: Result<Json, HerdrError>) -> Result<Tree, Complaint> {
    match r {
        Ok(value) => Ok(value@),
        Err(e) => Err(e@),
    }
}

/// What a list or a complaint says.
pub open spec fn list_outcome(r: Result<Vec<Json>, HerdrError>) -> Result<Seq<Tree>, Complaint> {
    match r {
        Ok(list) => Ok(trees(list@)),
        Err(e) => Err(e@),
    }
}

/// Takes the result out of a reply, which was read from `line`.
pub fn result_of(reply: Result<Json, Fault>, line: &str) -> (r: Result<Json, HerdrError>)
    ensures
        outcome(r) == result_in(reading(reply), line@),
        match (reply, r) {
            (Ok(value), Ok(result)) => value@ matches Tree::Object(members) && members.contains_key(
                "result"@,
            ) && members["result"@] == result@,
            (Ok(value), Err(HerdrError::Refused(told))) => !(value@ matches Tree::Object(members)
                && members.contains_key("result"@)) && told@ == trimmed(line@),
            (Err(fault), Err(HerdrError::Malformed(told))) => told == fault,
            _ => false,
        },
{
    match reply {
        Ok(value) => match value.take("result") {
            Some(result) => Ok(result),
            None => Err(HerdrError::Refused(trim(line))),
        },
        Err(fault) => Err(HerdrError::Malformed(fault)),
    }
}

/// Takes the list `key` out of the result of `method`.
pub fn list_of(result: Json, method: &str, key: &str) -> (r: Result<Vec<Json>, HerdrError>)
    ensures
        list_outcome(r) == list_in(Ok(result@), method@, key@),
        match r {
            Ok(list) => result@ matches Tree::Object(members) && members.contains_key(key@)
                && members[key@] is Array && members[key@]->Array_0.len() == list@.len()
                && forall|i: int|
                0 <= i < list@.len() ==> (#[trigger] list@[i])@ == members[key@]->Array_0[i],
            Err(HerdrError::Missing(told)) => !(result@ matches Tree::Object(members)
                && members.contains_key(key@) && members[key@] is Array) && told@ == "no "@ + key@
                + " from "@ + method@,
            Err(_) => false,
        },
{
    match result.take(key) {
        Some(Json::Array(items)) => {
            assert(trees(items@) =~= member(result@, key@)->Array_0);
            Ok(items)
        },
        _ => Err(HerdrError::Missing("no ".to_owned().concat(key).concat(" from ").concat(method))),
    }
}

/// Reads the result in `line`, herdr's reply.
pub fn call(line: &str) -> (r: Result<Json, HerdrError>)
    ensures
        outcome(r) == result_in(parsed(line@), line@),
        r is Ok <==> (parsed(line@) matches Reading::Whole(Tree::Object(members))
            && members.contains_key("result"@)),
        parsed(line@) matches Reading::Whole(Tree::Object(members)) ==> (r matches Ok(result)
            ==> result@ == members["result"@]),
        r matches Err(HerdrError::Malformed(fault)) ==> parsed(line@) == (Reading::Broken {
            eof: fault.eof,
            message: fault.message@,
        }),
        r matches Err(HerdrError::Refused(told)) ==> told@ == trimmed(line@) && (parsed(
            line@,
        ) matches Reading::Whole(reply) && !(reply matches Tree::Object(members)
            && members.contains_key("result"@))),
        !(r matches Err(HerdrError::Missing(_))),
{
    result_of(parse(line), line)
}

/// Reads the list `key` in `line`, herdr's reply to `method`.
pub fn list(line: &str, method: &str, key: &str) -> (r: Result<Vec<Json>, HerdrError>)
    ensures
        list_outcome(r) == list_in(result_in(parsed(line@), line@), method@, key@),
        r is Ok <==> (parsed(line@) matches Reading::Whole(Tree::Object(members))
            && members.contains_key("result"@) && (members["result"@] matches Tree::Object(result)
            && result.contains_key(key@) && result[key@] is Array)),
        r matches Ok(list) ==> {
            let items = parsed(line@)->Whole_0->Object_0["result"@]->Object_0[key@]->Array_0;
            &&& list@.len() == items.len()
            &&& forall|i: int| 0 <= i < list@.len() ==> (#[trigger] list@[i])@ == items[i]
        },
        r matches Err(HerdrError::Malformed(fault)) ==> parsed(line@) == (Reading::Broken {
            eof: fault.eof,
            message: fault.message@,
        }),
        r matches Err(HerdrError::Refused(told)) ==> told@ == trimmed(line@) && (parsed(
            line@,
        ) matches Reading::Whole(reply) && !(reply matches Tree::Object(members)
            && members.contains_key("result"@))),
        r matches Err(HerdrError::Missing(told)) ==> told@ == "no "@ + key@ + " from "@ + method@
            && (parsed(line@) matches Reading::Whole(Tree::Object(members))
            && members.contains_key("result"@)),
{
    match call(line) {
        Ok(result) => list_of(result, method, key),
        Err(e) => Err(e),
    }
}

impl HerdrError {
    /// What to tell the user.
    pub fn message(&self) -> (r: String)
        ensures
            r@ == match self@ {
                Complaint::Malformed { eof: _, message } => message,
                Complaint::Refused(line) => line,
                Complaint::Missing(what) => what,
            },
            r@ == match self {
                HerdrError::Malformed(fault) => fault.message@,
                HerdrError::Refused(line) => line@,
                HerdrError::Missing(what) => what@,
            },
    {
        match self {
            HerdrError::Malformed(fault) => fault.message.clone(),
            HerdrError::Refused(line) => line.clone(),
            HerdrError::Missing(what) => what.clone(),
        }
    }
}

/// The kinds of errors, as input and output tell them apart.
#[derive(Clone, Copy, Debug, PartialEq, Eq, Structural)]
pub enum Kind {
    /// The reply ends too early.
    UnexpectedEof,
    /// The reply is no JSON for another reason.
    InvalidData,
    /// The reply says no.
    Other,
}

impl HerdrError {
    /// The kind of the error.
    pub fn kind(&self) -> (r: Kind)
        ensures
            r == match self@ {
                Complaint::Malformed { eof: true, .. } => Kind::UnexpectedEof,
                Complaint::Malformed { eof: false, .. } => Kind::InvalidData,
                Complaint::Refused(_) => Kind::Other,
                Complaint::Missing(_) => Kind::Other,
            },
            r is UnexpectedEof <==> (self matches HerdrError::Malformed(fault) && fault.eof),
            r is InvalidData <==> (self matches HerdrError::Malformed(fault) && !fault.eof),
    {
        match self {
            HerdrError::Malformed(fault) => if fault.eof {
                Kind::UnexpectedEof
            } else {
                Kind::InvalidData
            },
            HerdrError::Refused(_) => Kind::Other,
            HerdrError::Missing(_) => Kind::Other,
        }
    }
}

/// The labels of the workspaces that have one, in order.
pub open spec fn labels_of(list: Seq<Tree>) -> Seq<Seq<char>>
    decreases list.len(),
{
    if list.len() == 0 {
        Seq::empty()
    } else {
        match member(list.last(), "label"@) {
            Tree::String(label) => labels_of(list.drop_last()).push(label),
            _ => labels_of(list.drop_last()),
        }
    }
}

/// The texts of a list of strings.
pub open spec fn texts(list: Seq<String>) -> Seq<Seq<char>> {
    Seq::new(list.len(), |i: int| list[i]@)
}

/// There is a label of each workspace that has one.
proof fn labels_are_of_the_labelled(list: Seq<Json>)
    ensures
        ({
            let labelled = list.filter(|workspace: Json| member(workspace@, "label"@) is String);
            let names = labels_of(trees(list));
            &&& names.len() == labelled.len()
            &&& forall|k: int|
                0 <= k < names.len() ==> member(labelled[k]@, "label"@) == Tree::String(
                    #[trigger] names[k],
                )
        }),
    decreases list.len(),
{
    reveal(Seq::filter);
    if list.len() > 0 {
        labels_are_of_the_labelled(list.drop_last());
        assert(trees(list).drop_last() =~= trees(list.drop_last()));
        assert(trees(list).last() == list.last()@);
    }
}

/// The labels of the workspaces that have one, in order.
pub fn labels(list: &Vec<Json>) -> (r: Vec<String>)
    ensures
        texts(r@) == labels_of(trees(list@)),
        r@.len() == list@.filter(|workspace: Json| member(workspace@, "label"@) is String).len(),
        forall|k: int|
            0 <= k < r@.len() ==> member(
                list@.filter(|workspace: Json| member(workspace@, "label"@) is String)[k]@,
                "label"@,
            ) == Tree::String((#[trigger] r@[k])@),
{
    let mut all: Vec<String> = Vec::new();
    let mut i: usize = 0;
    assert(texts(all@) =~= labels_of(trees(list@).take(0)));
    while i < list.len()
        invariant
            i <= list@.len(),
            texts(all@) == labels_of(trees(list@).take(i as int)),
        decreases list@.len() - i,
    {
        let ghost before = all@;
        assert(trees(list@).take(i + 1).drop_last() =~= trees(list@).take(i as int));
        match list[i].get("label") {
            Some(Json::String(label)) => {
                all.push(label.clone());
                assert(texts(all@) =~= texts(before).push(label@));
            },
            _ => {},
        }
        i = i + 1;
    }
    assert(trees(list@).take(i as int) =~= trees(list@));
    proof {
        labels_are_of_the_labelled(list@);
        assert forall|k: int| 0 <= k < all@.len() implies member(
            list@.filter(|workspace: Json| member(workspace@, "label"@) is String)[k]@,
            "label"@,
        ) == Tree::String((#[trigger] all@[k])@) by {
            assert(texts(all@)[k] == all@[k]@);
        }
    }
    all
}

/// The names of the workspaces in herdr's reply.
pub open spec fn names_in(list: Result<Seq<Tree>, Complaint>) -> Result<
    Seq<Seq<char>>,
    Complaint,
> {
    match list {
        Ok(list) => Ok(labels_of(list)),
        Err(complaint) => Err(complaint),
    }
}

/// What the names or a complaint say.
pub open spec fn names_outcome(r: Result<Vec<String>, HerdrError>) -> Result<
    Seq<Seq<char>>,
    Complaint,
> {
    match r {
        Ok(names) => Ok(texts(names@)),
        Err(e) => Err(e@),
    }
}

/// The workspace names (labels), in herdr's order, from `line`, its reply to `workspace.list`.
pub fn workspaces(line: &str) -> (r: Result<Vec<String>, HerdrError>)
    ensures
        names_outcome(r) == names_in(
            list_in(result_in(parsed(line@), line@), "workspace.list"@, "workspaces"@),
        ),
        r is Ok <==> (parsed(line@) matches Reading::Whole(Tree::Object(members))
            && members.contains_key("result"@) && (members["result"@] matches Tree::Object(result)
            && result.contains_key("workspaces"@) && result["workspaces"@] is Array)),
        r matches Ok(names) ==> {
            let result = parsed(line@)->Whole_0->Object_0["result"@]->Object_0;
            let labelled = result["workspaces"@]->Array_0.filter(
                |workspace: Tree| member(workspace, "label"@) is String,
            );
            &&& names@.len() == labelled.len()
            &&& forall|k: int|
                0 <= k < names@.len() ==> member(labelled[k], "label"@) == Tree::String(
                    (#[trigger] names@[k])@,
                )
        },
        r matches Err(HerdrError::Malformed(fault)) ==> parsed(line@) == (Reading::Broken {
            eof: fault.eof,
            message: fault.message@,
        }),
        r matches Err(HerdrError::Refused(told)) ==> told@ == trimmed(line@) && (parsed(
            line@,
        ) matches Reading::Whole(reply) && !(reply matches Tree::Object(members)
            && members.contains_key("result"@))),
        r matches Err(HerdrError::Missing(told)) ==> told@ == "no "@ + "workspaces"@ + " from "@
            + "workspace.list"@ && (parsed(line@) matches Reading::Whole(Tree::Object(members))
            && members.contains_key("result"@)),
{
    match list(line, "workspace.list", "workspaces") {
        Ok(list) => {
            let names = labels(&list);
            proof {
                let items = trees(list@);
                let result = parsed(line@)->Whole_0->Object_0["result"@]->Object_0;
                assert(items =~= result["workspaces"@]->Array_0);
                let labelled = items.filter(
                    |workspace: Tree| member(workspace, "label"@) is String,
                );
                names_are_the_labels(items);
                assert forall|k: int| 0 <= k < names@.len() implies member(labelled[k], "label"@)
                    == Tree::String((#[trigger] names@[k])@) by {
                    assert(texts(names@)[k] == names@[k]@);
                    items.lemma_filter_pred(
                        |workspace: Tree| member(workspace, "label"@) is String,
                        k,
                    );
                }
            }
            Ok(names)
        },
        Err(e) => Err(e),
    }
}

/// What herdr is asked, on the way to whether a workspace is in use.
#[derive(Debug)]
pub enum Query {
    /// Its workspaces.
    Workspaces,
    /// Its panes, for those in the workspaces with these ids.
    Panes { ids: Vec<Json> },
}

/// What a `Query` is.
pub enum Asked {
    Workspaces,
    Panes(Seq<Tree>),
}

impl View for Query {
    type V = Asked;

    open spec fn view(&self) -> Asked {
        match self {
            Query::Workspaces => Asked::Workspaces,
            Query::Panes { ids } => Asked::Panes(normals(ids@)),
        }
    }
}

/// What comes next: another question, or the answer.
#[derive(Debug)]
pub enum Step {
    Ask(Query),
    Answer(bool),
}

/// What a `Step` is.
pub enum Next {
    Ask(Asked),
    Answer(bool),
}

impl View for Step {
    type V = Next;

    open spec fn view(&self) -> Next {
        match self {
            Step::Ask(query) => Next::Ask(query@),
            Step::Answer(used) => Next::Answer(*used),
        }
    }
}

/// The method and the list in its result that a question is about.
pub open spec fn method_of(asked: Asked) -> (Seq<char>, Seq<char>) {
    match asked {
        Asked::Workspaces => ("workspace.list"@, "workspaces"@),
        Asked::Panes(_) => ("pane.list"@, "panes"@),
    }
}

impl Query {
    fn method(&self) -> (r: (&'static str, &'static str))
        ensures
            (r.0@, r.1@) == method_of(self@),
    {
        match self {
            Query::Workspaces => ("workspace.list", "workspaces"),
            Query::Panes { .. } => ("pane.list", "panes"),
        }
    }

    /// The line that asks herdr. The methods take no parameters.
    pub fn request(&self) -> (line: String)
        ensures
            line@ == rendered(
                request_tree(method_of(self@).0, Tree::Object(Map::empty())),
            ).push('\n'),
            !line@.drop_last().contains('\n'),
            parsed(line@) == Reading::Whole(
                request_tree(method_of(self@).0, Tree::Object(Map::empty())),
            ),
            parsed(line@) == Reading::Whole(
                request_tree(
                    match self {
                        Query::Workspaces => "workspace.list"@,
                        Query::Panes { .. } => "pane.list"@,
                    },
                    Tree::Object(Map::empty()),
                ),
            ),
    {
        let nothing: Vec<(String, Value)> = Vec::new();
        request(self.method().0, object(nothing))
    }
}

/// Whether a workspace is named `name`.
pub open spec fn is_named(workspace: Tree, name: Seq<char>) -> bool {
    member(workspace, "label"@) == Tree::String(name)
}

/// Whether a workspace is the one that herdr shows.
pub open spec fn is_shown(workspace: Tree) -> bool {
    member(workspace, "focused"@) == Tree::Bool(true)
}

/// The id of a workspace, or of the workspace that a pane is in, as far as equality tells ids
/// apart. Null if there is none.
pub open spec fn id_of(value: Tree) -> Tree {
    member(value, "workspace_id"@).normal()
}

/// Whether the agent in a pane is at work. It's each pane's status that counts, not the
/// workspace's: that says "blocked" if any agent waits on you.
pub open spec fn is_working(pane: Tree) -> bool {
    member(pane, "agent_status"@) == Tree::String("working"@)
}

/// The ids of the workspaces named `name`, in order.
pub open spec fn ids_of(list: Seq<Tree>, name: Seq<char>) -> Seq<Tree>
    decreases list.len(),
{
    if list.len() == 0 {
        Seq::empty()
    } else if is_named(list.last(), name) {
        ids_of(list.drop_last(), name).push(id_of(list.last()))
    } else {
        ids_of(list.drop_last(), name)
    }
}

/// Whether herdr shows a workspace named `name`.
pub open spec fn shows(list: Seq<Tree>, name: Seq<char>) -> bool {
    exists|i: int|
        0 <= i < list.len() && is_named(#[trigger] list[i], name) && is_shown(list[i])
}

/// Whether an agent is at work in a pane of a workspace with one of `ids`.
pub open spec fn works(panes: Seq<Tree>, ids: Seq<Tree>) -> bool {
    exists|j: int|
        0 <= j < panes.len() && ids.contains(id_of(#[trigger] panes[j])) && is_working(panes[j])
}

/// What comes next after herdr's workspaces.
pub open spec fn after_list(list: Seq<Tree>, name: Seq<char>) -> Next {
    if shows(list, name) {
        Next::Answer(true)
    } else {
        Next::Ask(Asked::Panes(ids_of(list, name)))
    }
}

/// What comes next when herdr has answered a question with `list`.
pub open spec fn next(asked: Asked, list: Seq<Tree>, name: Seq<char>) -> Next {
    match asked {
        Asked::Workspaces => after_list(list, name),
        Asked::Panes(ids) => Next::Answer(works(list, ids)),
    }
}

/// What comes next when herdr has answered with `list`, or why it has not.
pub open spec fn next_in(
    asked: Asked,
    list: Result<Seq<Tree>, Complaint>,
    name: Seq<char>,
) -> Result<Next, Complaint> {
    match list {
        Ok(list) => Ok(next(asked, list, name)),
        Err(complaint) => Err(complaint),
    }
}

/// What a step or a complaint says.
pub open spec fn step_outcome(r: Result<Step, HerdrError>) -> Result<Next, Complaint> {
    match r {
        Ok(step) => Ok(step@),
        Err(e) => Err(e@),
    }
}

/// The id in a workspace or a pane, and null if there is none.
fn id(value: &Json) -> (r: Json)
    ensures
        r@ == member(value@, "workspace_id"@),
        r@.normal() == id_of(value@),
{
    match value.get("workspace_id") {
        Some(id) => id.clone(),
        None => Json::Null,
    }
}

/// Goes through herdr's workspaces: it shows one named `name`, or the panes of those are to be
/// asked for.
pub fn after_workspaces(list: &Vec<Json>, name: &str) -> (r: Step)
    ensures
        r@ == after_list(trees(list@), name@),
        match r {
            Step::Answer(used) => used && exists|i: int|
                0 <= i < list@.len() && member((#[trigger] list@[i])@, "label"@) == Tree::String(
                    name@,
                ) && member(list@[i]@, "focused"@) == Tree::Bool(true),
            Step::Ask(Query::Panes { ids }) => {
                let named = trees(list@).filter(
                    |workspace: Tree| member(workspace, "label"@) == Tree::String(name@),
                );
                &&& forall|i: int|
                    0 <= i < list@.len() && member((#[trigger] list@[i])@, "label"@)
                        == Tree::String(name@) ==> member(list@[i]@, "focused"@) != Tree::Bool(true)
                &&& ids@.len() == named.len()
                &&& forall|k: int|
                    0 <= k < ids@.len() ==> (#[trigger] ids@[k])@ == member(
                        named[k],
                        "workspace_id"@,
                    )
            },
            Step::Ask(Query::Workspaces) => false,
        },
{
    let ghost all = trees(list@);
    let mut ids: Vec<Json> = Vec::new();
    let mut i: usize = 0;
    let ghost is_of_name = |workspace: Tree|
        member(workspace, "label"@) == Tree::String(name@);
    proof {
        reveal(Seq::filter);
        assert(normals(ids@) =~= ids_of(all.take(0), name@));
    }
    while i < list.len()
        invariant
            all == trees(list@),
            is_of_name == (|workspace: Tree|
                member(workspace, "label"@) == Tree::String(name@)),
            i <= list@.len(),
            ids@.len() == all.take(i as int).filter(is_of_name).len(),
            forall|k: int|
                0 <= k < ids@.len() ==> (#[trigger] ids@[k])@ == member(
                    all.take(i as int).filter(is_of_name)[k],
                    "workspace_id"@,
                ),
            normals(ids@) == ids_of(all.take(i as int), name@),
            forall|j: int|
                0 <= j < i ==> !(is_named(#[trigger] all[j], name@) && is_shown(all[j])),
        decreases list@.len() - i,
    {
        proof {
            reveal(Seq::filter);
        }
        let workspace = &list[i];
        let named = match workspace.get("label") {
            Some(label) => label.is_string(name),
            None => false,
        };
        assert(all.take(i + 1).drop_last() =~= all.take(i as int));
        assert(all[i as int] == workspace@);
        if named {
            if matches!(workspace.get("focused"), Some(Json::Bool(true))) {
                assert(member(list@[i as int]@, "label"@) == Tree::String(name@));
                return Step::Answer(true);
            }
            let ghost before = ids@;
            ids.push(id(workspace));
            assert(normals(ids@) =~= normals(before).push(id_of(workspace@)));
        }
        i = i + 1;
    }
    assert(all.take(i as int) =~= all);
    assert forall|j: int|
        0 <= j < list@.len() && member((#[trigger] list@[j])@, "label"@) == Tree::String(
            name@,
        ) implies member(list@[j]@, "focused"@) != Tree::Bool(true) by {
        assert(all[j] == list@[j]@);
    }
    Step::Ask(Query::Panes { ids })
}

/// Whether an agent is at work is told by two members of a pane.
proof fn works_by_members(panes: Seq<Json>, ids: Seq<Json>)
    ensures
        works(trees(panes), normals(ids)) <==> exists|j: int, k: int|
            0 <= j < panes.len() && 0 <= k < ids.len() && member(
                (#[trigger] panes[j])@,
                "workspace_id"@,
            ).normal() == (#[trigger] ids[k])@.normal() && member(panes[j]@, "agent_status"@)
                == Tree::String("working"@),
{
    let (all, known) = (trees(panes), normals(ids));
    if works(all, known) {
        let j = choose|j: int|
            0 <= j < all.len() && known.contains(id_of(#[trigger] all[j])) && is_working(all[j]);
        let k = choose|k: int| 0 <= k < known.len() && known[k] == id_of(all[j]);
        assert(panes[j]@ == all[j] && ids[k]@.normal() == known[k]);
    }
    if exists|j: int, k: int|
        0 <= j < panes.len() && 0 <= k < ids.len() && member(
            (#[trigger] panes[j])@,
            "workspace_id"@,
        ).normal() == (#[trigger] ids[k])@.normal() && member(panes[j]@, "agent_status"@)
            == Tree::String("working"@) {
        let (j, k) = choose|j: int, k: int|
            0 <= j < panes.len() && 0 <= k < ids.len() && member(
                (#[trigger] panes[j])@,
                "workspace_id"@,
            ).normal() == (#[trigger] ids[k])@.normal() && member(panes[j]@, "agent_status"@)
                == Tree::String("working"@);
        assert(known[k] == id_of(all[j]));
        assert(is_working(all[j]));
    }
}

/// Whether an agent is at work in one of `panes` that is in a workspace with one of `ids`.
pub fn after_panes(panes: &Vec<Json>, ids: &Vec<Json>) -> (r: bool)
    ensures
        r == works(trees(panes@), normals(ids@)),
        r == exists|j: int, k: int|
            0 <= j < panes@.len() && 0 <= k < ids@.len() && member(
                (#[trigger] panes@[j])@,
                "workspace_id"@,
            ).normal() == (#[trigger] ids@[k])@.normal() && member(panes@[j]@, "agent_status"@)
                == Tree::String("working"@),
{
    proof {
        works_by_members(panes@, ids@);
    }
    let ghost all = trees(panes@);
    let mut i: usize = 0;
    while i < panes.len()
        invariant
            all == trees(panes@),
            i <= panes@.len(),
            forall|j: int|
                0 <= j < i ==> !(normals(ids@).contains(id_of(#[trigger] all[j])) && is_working(
                    all[j],
                )),
        decreases panes@.len() - i,
    {
        let pane = &panes[i];
        assert(all[i as int] == pane@);
        let working = match pane.get("agent_status") {
            Some(status) => status.is_string("working"),
            None => false,
        };
        if contains(ids, &id(pane)) && working {
            return true;
        }
        i = i + 1;
    }
    false
}

/// Whether `id` is equal to one of `ids`.
fn contains(ids: &Vec<Json>, id: &Json) -> (r: bool)
    ensures
        r == normals(ids@).contains(id@.normal()),
{
    let mut i: usize = 0;
    while i < ids.len()
        invariant
            i <= ids@.len(),
            forall|j: int| 0 <= j < i ==> (#[trigger] ids@[j])@.normal() != id@.normal(),
        decreases ids@.len() - i,
    {
        if ids[i].same(id) {
            assert(normals(ids@)[i as int] == id@.normal());
            return true;
        }
        i = i + 1;
    }
    false
}

/// Whether the workspace named `name` is in use, as far as `line` tells, herdr's reply to `asked`:
/// it's the one herdr shows, or an agent in it is at work. Its screens can't tell: dashboards
/// redraw with nobody there. The first question is `Query::Workspaces`.
pub fn in_use(name: &str, asked: &Query, line: &str) -> (r: Result<Step, HerdrError>)
    ensures
        step_outcome(r) == next_in(
            asked@,
            list_in(result_in(parsed(line@), line@), method_of(asked@).0, method_of(asked@).1),
            name@,
        ),
        r is Ok <==> match asked {
            Query::Workspaces => (parsed(line@) matches Reading::Whole(Tree::Object(members))
                && members.contains_key("result"@) && (members["result"@] matches Tree::Object(
                result,
            ) && result.contains_key("workspaces"@) && result["workspaces"@] is Array)),
            Query::Panes { .. } => (parsed(line@) matches Reading::Whole(Tree::Object(members))
                && members.contains_key("result"@) && (members["result"@] matches Tree::Object(
                result,
            ) && result.contains_key("panes"@) && result["panes"@] is Array)),
        },
        asked is Workspaces ==> (r matches Ok(step) ==> {
            let result = parsed(line@)->Whole_0->Object_0["result"@]->Object_0;
            let list = result["workspaces"@]->Array_0;
            let named = list.filter(
                |workspace: Tree| member(workspace, "label"@) == Tree::String(name@),
            );
            let shown = exists|i: int|
                0 <= i < list.len() && member(#[trigger] list[i], "label"@) == Tree::String(name@)
                    && member(list[i], "focused"@) == Tree::Bool(true);
            match step {
                Step::Answer(used) => used && shown,
                Step::Ask(Query::Panes { ids }) => {
                    &&& !shown
                    &&& ids@.len() == named.len()
                    &&& forall|k: int|
                        0 <= k < ids@.len() ==> (#[trigger] ids@[k])@ == member(
                            named[k],
                            "workspace_id"@,
                        )
                },
                Step::Ask(Query::Workspaces) => false,
            }
        }),
        asked matches Query::Panes { ids } ==> (r matches Ok(step) ==> {
            let panes = parsed(line@)->Whole_0->Object_0["result"@]->Object_0["panes"@]->Array_0;
            step == Step::Answer(
                exists|j: int, k: int|
                    0 <= j < panes.len() && 0 <= k < ids@.len() && member(
                        #[trigger] panes[j],
                        "workspace_id"@,
                    ).normal() == (#[trigger] ids@[k])@.normal() && member(
                        panes[j],
                        "agent_status"@,
                    ) == Tree::String("working"@),
            )
        }),
        r matches Err(HerdrError::Malformed(fault)) ==> parsed(line@) == (Reading::Broken {
            eof: fault.eof,
            message: fault.message@,
        }),
        r matches Err(HerdrError::Refused(told)) ==> told@ == trimmed(line@) && (parsed(
            line@,
        ) matches Reading::Whole(reply) && !(reply matches Tree::Object(members)
            && members.contains_key("result"@))),
        r matches Err(HerdrError::Missing(told)) ==> told@ == match asked {
            Query::Workspaces => "no "@ + "workspaces"@ + " from "@ + "workspace.list"@,
            Query::Panes { .. } => "no "@ + "panes"@ + " from "@ + "pane.list"@,
        } && (parsed(line@) matches Reading::Whole(Tree::Object(members)) && members.contains_key(
            "result"@,
        )),
{
    let (method, key) = asked.method();
    match list(line, method, key) {
        Ok(list) => {
            let ghost items = parsed(line@)->Whole_0->Object_0["result"@]->Object_0[key@]->Array_0;
            assert(trees(list@) =~= items);
            assert(forall|i: int| 0 <= i < items.len() ==> (#[trigger] items[i]) == list@[i]@);
            match asked {
                Query::Workspaces => Ok(after_workspaces(&list, name)),
                Query::Panes { ids } => Ok(Step::Answer(after_panes(&list, ids))),
            }
        },
        Err(e) => Err(e),
    }
}

/// Whether the workspace named `name` is in use: one of that name is the one that herdr shows, or
/// an agent in it is at work.
pub open spec fn is_in_use(workspaces: Seq<Tree>, panes: Seq<Tree>, name: Seq<char>) -> bool {
    exists|i: int|
        0 <= i < workspaces.len() && is_named(#[trigger] workspaces[i], name) && (is_shown(
            workspaces[i],
        ) || at_work(workspaces[i], panes))
}

/// Whether an agent in a workspace is at work.
pub open spec fn at_work(workspace: Tree, panes: Seq<Tree>) -> bool {
    exists|j: int|
        0 <= j < panes.len() && id_of(#[trigger] panes[j]) == id_of(workspace) && is_working(
            panes[j],
        )
}

proof fn ids_are_of_the_named(list: Seq<Tree>, name: Seq<char>, id: Tree)
    ensures
        ids_of(list, name).contains(id) <==> exists|i: int|
            0 <= i < list.len() && is_named(#[trigger] list[i], name) && id_of(list[i]) == id,
    decreases list.len(),
{
    if list.len() > 0 {
        let init = list.drop_last();
        ids_are_of_the_named(init, name, id);
        let (all, some) = (ids_of(list, name), ids_of(init, name));
        if all.contains(id) {
            let k = choose|k: int| 0 <= k < all.len() && all[k] == id;
            if k < some.len() {
                assert(some[k] == id);
                let i = choose|i: int|
                    0 <= i < init.len() && is_named(#[trigger] init[i], name) && id_of(init[i])
                        == id;
                assert(list[i] == init[i]);
            } else {
                assert(list[list.len() - 1] == list.last());
            }
        }
        if exists|i: int|
            0 <= i < list.len() && is_named(#[trigger] list[i], name) && id_of(list[i]) == id {
            let i = choose|i: int|
                0 <= i < list.len() && is_named(#[trigger] list[i], name) && id_of(list[i]) == id;
            if i < init.len() {
                assert(init[i] == list[i]);
                let k = choose|k: int| 0 <= k < some.len() && some[k] == id;
                assert(all[k] == id);
            } else {
                assert(all.last() == id);
            }
        }
    }
}

/// Asking herdr comes to whether the workspace is in use: either its workspaces are enough to tell
/// that it is, or its panes tell.
pub proof fn questions_find_the_answer(workspaces: Seq<Tree>, panes: Seq<Tree>, name: Seq<char>)
    ensures
        match next(Asked::Workspaces, workspaces, name) {
            Next::Answer(used) => used && is_in_use(workspaces, panes, name),
            Next::Ask(asked) => asked is Panes && next(asked, panes, name) == Next::Answer(
                is_in_use(workspaces, panes, name),
            ),
        },
{
    let ids = ids_of(workspaces, name);
    if shows(workspaces, name) {
    } else {
        if works(panes, ids) {
            let j = choose|j: int|
                0 <= j < panes.len() && ids.contains(id_of(#[trigger] panes[j])) && is_working(
                    panes[j],
                );
            ids_are_of_the_named(workspaces, name, id_of(panes[j]));
            let i = choose|i: int|
                0 <= i < workspaces.len() && is_named(#[trigger] workspaces[i], name) && id_of(
                    workspaces[i],
                ) == id_of(panes[j]);
            assert(at_work(workspaces[i], panes));
        }
        if is_in_use(workspaces, panes, name) {
            let i = choose|i: int|
                0 <= i < workspaces.len() && is_named(#[trigger] workspaces[i], name) && (is_shown(
                    workspaces[i],
                ) || at_work(workspaces[i], panes));
            let j = choose|j: int|
                0 <= j < panes.len() && id_of(#[trigger] panes[j]) == id_of(workspaces[i])
                    && is_working(panes[j]);
            ids_are_of_the_named(workspaces, name, id_of(panes[j]));
        }
    }
}

/// What counts of a workspace is whether its label is the name, a string, and whether `focused` is
/// true; of a pane, whether `agent_status` is the string "working". An id that is not there is
/// null.
pub proof fn members_that_count(value: Tree, name: Seq<char>)
    ensures
        is_named(value, name) <==> member(value, "label"@) == Tree::String(name),
        is_shown(value) <==> member(value, "focused"@) == Tree::Bool(true),
        is_working(value) <==> member(value, "agent_status"@) == Tree::String("working"@),
        id_of(value) == member(value, "workspace_id"@).normal(),
{
}

/// A workspace is in use exactly if one with that label has `focused` true, or has the id of a pane
/// whose `agent_status` is "working". Herdr's workspaces are the answer if they tell that, and
/// otherwise its panes are, of which nothing else counts.
pub proof fn in_use_by_members(workspaces: Seq<Tree>, panes: Seq<Tree>, name: Seq<char>)
    ensures
        ({
            let shown = exists|i: int|
                0 <= i < workspaces.len() && member(#[trigger] workspaces[i], "label"@)
                    == Tree::String(name) && member(workspaces[i], "focused"@) == Tree::Bool(true);
            let busy = exists|i: int, j: int|
                0 <= i < workspaces.len() && 0 <= j < panes.len() && member(
                    #[trigger] workspaces[i],
                    "label"@,
                ) == Tree::String(name) && member(workspaces[i], "workspace_id"@).normal()
                    == member(#[trigger] panes[j], "workspace_id"@).normal() && member(
                    panes[j],
                    "agent_status"@,
                ) == Tree::String("working"@);
            match next(Asked::Workspaces, workspaces, name) {
                Next::Answer(used) => used && shown,
                Next::Ask(Asked::Panes(ids)) => !shown && next(Asked::Panes(ids), panes, name)
                    == Next::Answer(busy),
                Next::Ask(Asked::Workspaces) => false,
            }
        }),
{
    let ids = ids_of(workspaces, name);
    if !shows(workspaces, name) {
        if works(panes, ids) {
            let j = choose|j: int|
                0 <= j < panes.len() && ids.contains(id_of(#[trigger] panes[j])) && is_working(
                    panes[j],
                );
            ids_are_of_the_named(workspaces, name, id_of(panes[j]));
            let i = choose|i: int|
                0 <= i < workspaces.len() && is_named(#[trigger] workspaces[i], name) && id_of(
                    workspaces[i],
                ) == id_of(panes[j]);
            assert(member(workspaces[i], "label"@) == Tree::String(name));
        }
        if exists|i: int, j: int|
            0 <= i < workspaces.len() && 0 <= j < panes.len() && member(
                #[trigger] workspaces[i],
                "label"@,
            ) == Tree::String(name) && member(workspaces[i], "workspace_id"@).normal() == member(
                #[trigger] panes[j],
                "workspace_id"@,
            ).normal() && member(panes[j], "agent_status"@) == Tree::String("working"@) {
            let (i, j) = choose|i: int, j: int|
                0 <= i < workspaces.len() && 0 <= j < panes.len() && member(
                    #[trigger] workspaces[i],
                    "label"@,
                ) == Tree::String(name) && member(workspaces[i], "workspace_id"@).normal()
                    == member(#[trigger] panes[j], "workspace_id"@).normal() && member(
                    panes[j],
                    "agent_status"@,
                ) == Tree::String("working"@);
            ids_are_of_the_named(workspaces, name, id_of(panes[j]));
            assert(is_named(workspaces[i], name));
        }
    }
}

/// Without a workspace of that label whose `focused` is true, and without a pane whose
/// `agent_status` is the string "working", the workspace is not in use, whatever else herdr says of
/// its workspaces and panes.
pub proof fn idle_is_not_in_use(
    workspaces: Seq<Tree>,
    panes: Seq<Tree>,
    name: Seq<char>,
    ids: Seq<Tree>,
)
    requires
        forall|i: int|
            0 <= i < workspaces.len() && member(#[trigger] workspaces[i], "label"@)
                == Tree::String(name) ==> member(workspaces[i], "focused"@) != Tree::Bool(true),
        forall|j: int|
            0 <= j < panes.len() ==> member(#[trigger] panes[j], "agent_status"@) != Tree::String(
                "working"@,
            ),
    ensures
        next(Asked::Workspaces, workspaces, name) matches Next::Ask(asked) && next(
            asked,
            panes,
            name,
        ) == Next::Answer(false),
        next(Asked::Panes(ids), panes, name) == Next::Answer(false),
        !is_in_use(workspaces, panes, name),
{
}

/// One more pane makes a workspace be in use exactly if its `agent_status` is "working" and its
/// `workspace_id` is one of those asked for. It never takes that back.
pub proof fn a_pane_counts_by_its_status(
    panes: Seq<Tree>,
    pane: Tree,
    ids: Seq<Tree>,
    name: Seq<char>,
)
    ensures
        next(Asked::Panes(ids), panes.push(pane), name) == Next::Answer(
            next(Asked::Panes(ids), panes, name) == Next::Answer(true) || member(
                pane,
                "agent_status"@,
            ) == Tree::String("working"@) && ids.contains(member(pane, "workspace_id"@).normal()),
        ),
        next(Asked::Panes(ids), Seq::empty(), name) == Next::Answer(false),
{
    let more = panes.push(pane);
    assert(more.last() == more[panes.len() as int]);
    if works(panes, ids) {
        let j = choose|j: int|
            0 <= j < panes.len() && ids.contains(id_of(#[trigger] panes[j])) && is_working(
                panes[j],
            );
        assert(more[j] == panes[j]);
    }
    if works(more, ids) {
        let j = choose|j: int|
            0 <= j < more.len() && ids.contains(id_of(#[trigger] more[j])) && is_working(more[j]);
        if j < panes.len() {
            assert(panes[j] == more[j]);
        }
    }
}

/// The panes asked for are those of each workspace with that label, in order, and of no other.
pub proof fn panes_of_the_named_are_asked_for(list: Seq<Tree>, name: Seq<char>)
    ensures
        ids_of(list, name) == list.filter(
            |workspace: Tree| member(workspace, "label"@) == Tree::String(name),
        ).map_values(|workspace: Tree| member(workspace, "workspace_id"@).normal()),
    decreases list.len(),
{
    reveal(Seq::filter);
    let named = list.filter(|workspace: Tree| member(workspace, "label"@) == Tree::String(name));
    let ids = named.map_values(|workspace: Tree| member(workspace, "workspace_id"@).normal());
    if list.len() > 0 {
        panes_of_the_named_are_asked_for(list.drop_last(), name);
    }
    assert(ids_of(list, name) =~= ids);
}

/// The names of the workspaces are the names that a workspace has.
pub proof fn names_are_of_workspaces(list: Seq<Tree>, name: Seq<char>)
    ensures
        labels_of(list).contains(name) <==> exists|i: int|
            0 <= i < list.len() && is_named(#[trigger] list[i], name),
    decreases list.len(),
{
    if list.len() > 0 {
        let init = list.drop_last();
        names_are_of_workspaces(init, name);
        let (all, some) = (labels_of(list), labels_of(init));
        if all.contains(name) {
            let k = choose|k: int| 0 <= k < all.len() && all[k] == name;
            if k < some.len() {
                assert(some[k] == name);
                let i = choose|i: int| 0 <= i < init.len() && is_named(#[trigger] init[i], name);
                assert(list[i] == init[i]);
            } else {
                assert(is_named(list[list.len() - 1], name));
            }
        }
        if exists|i: int| 0 <= i < list.len() && is_named(#[trigger] list[i], name) {
            let i = choose|i: int| 0 <= i < list.len() && is_named(#[trigger] list[i], name);
            if i < init.len() {
                assert(init[i] == list[i]);
                let k = choose|k: int| 0 <= k < some.len() && some[k] == name;
                assert(all[k] == name);
            } else {
                assert(all.last() == name);
            }
        }
    }
}

/// A workspace that herdr does not name is not in use, whatever its panes are.
pub proof fn unnamed_is_not_in_use(workspaces: Seq<Tree>, panes: Seq<Tree>, name: Seq<char>)
    requires
        !labels_of(workspaces).contains(name),
    ensures
        !is_in_use(workspaces, panes, name),
{
    names_are_of_workspaces(workspaces, name);
}

/// Each workspace gives one name if its label is a string, and none otherwise: the names are the
/// labels that are strings, in herdr's order, each as often as there is a workspace with it.
pub proof fn names_are_the_labels(list: Seq<Tree>)
    ensures
        labels_of(list) == list.filter(
            |workspace: Tree| member(workspace, "label"@) is String,
        ).map_values(|workspace: Tree| member(workspace, "label"@)->String_0),
        labels_of(list).len() == list.filter(
            |workspace: Tree| member(workspace, "label"@) is String,
        ).len(),
    decreases list.len(),
{
    reveal(Seq::filter);
    let labelled = list.filter(|workspace: Tree| member(workspace, "label"@) is String);
    let named = |workspace: Tree| member(workspace, "label"@)->String_0;
    if list.len() == 0 {
        assert(labels_of(list) =~= labelled.map_values(named));
    } else {
        names_are_the_labels(list.drop_last());
        assert(labels_of(list) =~= labelled.map_values(named));
    }
}

/// One workspace gives one name, its label, or none if that is not a string. One more workspace
/// behind others leaves their names as they are.
pub proof fn a_workspace_has_one_name(list: Seq<Tree>, workspace: Tree)
    ensures
        labels_of(seq![workspace]) == match member(workspace, "label"@) {
            Tree::String(label) => seq![label],
            _ => Seq::empty(),
        },
        labels_of(list.push(workspace)) == labels_of(list) + labels_of(seq![workspace]),
        labels_of(Seq::empty()) == Seq::<Seq<char>>::empty(),
{
    reveal_with_fuel(labels_of, 2);
    assert(seq![workspace].drop_last() =~= Seq::<Tree>::empty());
    assert(list.push(workspace) =~= list + seq![workspace]);
    names_keep_order(list, seq![workspace]);
}

/// The names come in herdr's order.
pub proof fn names_keep_order(first: Seq<Tree>, second: Seq<Tree>)
    ensures
        labels_of(first + second) == labels_of(first) + labels_of(second),
    decreases second.len(),
{
    if second.len() == 0 {
        assert(first + second =~= first);
        assert(labels_of(first) + labels_of(second) =~= labels_of(first));
    } else {
        assert((first + second).drop_last() =~= first + second.drop_last());
        names_keep_order(first, second.drop_last());
        assert(labels_of(first + second) =~= labels_of(first) + labels_of(second));
    }
}

/// A request is an object of three members: its id, which is always the same, the method and the
/// parameters. What is asked, and with what, can be told from it.
pub proof fn a_request_has_three_members(method: Seq<char>, params: Tree, key: Seq<char>)
    ensures
        request_tree(method, params) matches Tree::Object(members) && (members.contains_key(key)
            <==> key == "id"@ || key == "method"@ || key == "params"@),
        member(request_tree(method, params), "id"@) == Tree::String("1"@),
        member(request_tree(method, params), "method"@) == Tree::String(method),
        member(request_tree(method, params), "params"@) == params,
{
    reveal_strlit("id");
    reveal_strlit("method");
    reveal_strlit("params");
    assert("id"@.len() != "method"@.len());
    assert("id"@.len() != "params"@.len());
    assert("method"@[0] != "params"@[0]);
}

/// The list in a result is found whatever else is in the result and the reply, and whatever the
/// line was. It alone decides what comes next, and what the names are.
pub proof fn a_list_is_found(
    reply: Map<Seq<char>, Tree>,
    result: Map<Seq<char>, Tree>,
    items: Seq<Tree>,
    line: Seq<char>,
    method: Seq<char>,
    key: Seq<char>,
    asked: Asked,
    name: Seq<char>,
)
    ensures
        ({
            let whole = Tree::Object(
                reply.insert("result"@, Tree::Object(result.insert(key, Tree::Array(items)))),
            );
            let list = list_in(result_in(Reading::Whole(whole), line), method, key);
            &&& list == Ok::<Seq<Tree>, Complaint>(items)
            &&& next_in(asked, list, name) == Ok::<Next, Complaint>(next(asked, items, name))
            &&& names_in(list) == Ok::<Seq<Seq<char>>, Complaint>(labels_of(items))
        }),
{
}

/// A result without the list, or with something else in its place, is told by the names of the list
/// and the method.
pub proof fn a_missing_list_is_told(
    reply: Map<Seq<char>, Tree>,
    result: Tree,
    line: Seq<char>,
    method: Seq<char>,
    key: Seq<char>,
    asked: Asked,
    name: Seq<char>,
)
    requires
        !(member(result, key) is Array),
    ensures
        ({
            let whole = Tree::Object(reply.insert("result"@, result));
            let list = list_in(result_in(Reading::Whole(whole), line), method, key);
            let told = Complaint::Missing("no "@ + key + " from "@ + method);
            &&& result_in(Reading::Whole(whole), line) == Ok::<Tree, Complaint>(result)
            &&& list == Err::<Seq<Tree>, Complaint>(told)
            &&& next_in(asked, list, name) == Err::<Next, Complaint>(told)
            &&& names_in(list) == Err::<Seq<Seq<char>>, Complaint>(told)
        }),
{
}

/// What is wrong with a reply that is no JSON is told as it is, whatever was asked.
pub proof fn a_fault_is_told(
    eof: bool,
    message: Seq<char>,
    line: Seq<char>,
    method: Seq<char>,
    key: Seq<char>,
    asked: Asked,
    name: Seq<char>,
)
    ensures
        ({
            let list = list_in(result_in(Reading::Broken { eof, message }, line), method, key);
            let told = Complaint::Malformed { eof, message };
            &&& next_in(asked, list, name) == Err::<Next, Complaint>(told)
            &&& names_in(list) == Err::<Seq<Seq<char>>, Complaint>(told)
        }),
{
}

/// A list is seen value by value, in order.
pub proof fn lists_are_seen_in_order(values: Seq<Json>, strings: Seq<String>, i: int)
    ensures
        trees(values).len() == values.len(),
        normals(values).len() == values.len(),
        texts(strings).len() == strings.len(),
        0 <= i < values.len() ==> trees(values)[i] == values[i]@ && normals(values)[i]
            == values[i]@.normal(),
        0 <= i < strings.len() ==> texts(strings)[i] == strings[i]@,
{
}

/// A reply without a result, such as herdr's errors, is what the user is told, whatever was asked.
pub proof fn refusal_is_told(
    reply: Tree,
    line: Seq<char>,
    method: Seq<char>,
    key: Seq<char>,
    asked: Asked,
    name: Seq<char>,
)
    requires
        reply matches Tree::Object(members) ==> !members.contains_key("result"@),
    ensures
        ({
            let list = list_in(result_in(Reading::Whole(reply), line), method, key);
            &&& names_in(list) matches Err(Complaint::Refused(told)) && told == trimmed(line)
            &&& next_in(asked, list, name) matches Err(Complaint::Refused(told)) && told == trimmed(
                line,
            )
        }),
{
}

} // verus!
