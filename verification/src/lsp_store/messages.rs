//! Requests and notifications that language servers send, and what answers them.
use vstd::prelude::*;

use crate::text::same_text;

verus! {

/// A JSON value. A number is kept as it is written.
#[derive(Debug)]
pub enum Json {
    Null,
    Bool(bool),
    Number(String),
    Text(String),
    Array(Vec<Json>),
    Object(Vec<(String, Json)>),
}

/// The member of an object with a name.
pub open spec fn member(fields: Seq<(String, Json)>, name: Seq<char>) -> Option<Json>
    decreases fields.len(),
{
    if fields.len() == 0 {
        None
    } else if fields[0].0@ == name {
        Some(fields[0].1)
    } else {
        member(fields.skip(1), name)
    }
}

impl Json {
    /// What a value holds under a name; only objects hold anything under one.
    pub open spec fn at(self, name: Seq<char>) -> Option<Json> {
        match self {
            Json::Object(fields) => member(fields@, name),
            _ => None,
        }
    }

    /// The member with a name.
    pub fn get(&self, name: &str) -> (value: Option<&Json>)
        ensures
            value == (match self.at(name@) {
                Some(value) => Some(&value),
                None => None,
            }),
    {
        if let Json::Object(fields) = self {
            let mut i: usize = 0;
            assert(fields@.skip(0) =~= fields@);
            while i < fields.len()
                invariant
                    i <= fields@.len(),
                    *self == Json::Object(*fields),
                    member(fields@, name@) == member(fields@.skip(i as int), name@),
                decreases fields@.len() - i,
            {
                assert(fields@.skip(i as int)[0] == fields@[i as int]);
                assert(fields@.skip(i as int).skip(1) =~= fields@.skip(i + 1));
                if same_text(fields[i].0.as_str(), name) {
                    return Some(&fields[i].1);
                }
                i += 1;
            }
        }
        None
    }
}

/// One item of a request for the workspace configuration.
#[derive(Debug)]
pub struct ConfigurationItem {
    pub scope_uri: Option<String>,
    pub section: Option<String>,
}

pub open spec fn scope_view(scope: Option<String>) -> Option<Seq<char>> {
    match scope {
        Some(scope) => Some(scope@),
        None => None,
    }
}

/// The scopes of the items, each once, in the order in which they first occur.
pub open spec fn distinct_scopes(items: Seq<ConfigurationItem>) -> Seq<Option<Seq<char>>>
    decreases items.len(),
{
    if items.len() == 0 {
        Seq::empty()
    } else {
        let earlier = distinct_scopes(items.drop_last());
        let scope = scope_view(items.last().scope_uri);
        if earlier.contains(scope) {
            earlier
        } else {
            earlier.push(scope)
        }
    }
}

pub open spec fn scope_views(scopes: Seq<Option<String>>) -> Seq<Option<Seq<char>>> {
    scopes.map_values(|scope: Option<String>| scope_view(scope))
}

fn same_scope(a: &Option<String>, b: &Option<String>) -> (same: bool)
    ensures
        same == (scope_view(*a) == scope_view(*b)),
{
    match (a, b) {
        (Some(a), Some(b)) => same_text(a.as_str(), b.as_str()),
        (None, None) => true,
        _ => false,
    }
}

fn find_scope(scopes: &Vec<Option<String>>, scope: &Option<String>) -> (found: Option<usize>)
    ensures
        match found {
            Some(i) => i < scopes@.len() && scope_view(scopes@[i as int]) == scope_view(*scope),
            None => !scope_views(scopes@).contains(scope_view(*scope)),
        },
{
    let mut i: usize = 0;
    while i < scopes.len()
        invariant
            i <= scopes@.len(),
            forall|j: int|
                0 <= j < i ==> scope_view(#[trigger] scopes@[j]) != scope_view(*scope),
        decreases scopes@.len() - i,
    {
        if same_scope(&scopes[i], scope) {
            return Some(i);
        }
        i += 1;
    }
    proof {
        let views = scope_views(scopes@);
        if views.contains(scope_view(*scope)) {
            let j = choose|j: int| 0 <= j < views.len() && views[j] == scope_view(*scope);
            assert(scope_view(scopes@[j]) == scope_view(*scope));
        }
    }
    None
}

/// The scopes whose configuration has to be looked up to answer a request. A scope
/// that occurs more than once is looked up once.
pub fn scopes_to_query(items: &Vec<ConfigurationItem>) -> (scopes: Vec<Option<String>>)
    ensures
        scope_views(scopes@) == distinct_scopes(items@),
{
    let mut scopes: Vec<Option<String>> = Vec::new();
    let mut i: usize = 0;
    assert(scope_views(scopes@) =~= Seq::<Option<Seq<char>>>::empty());
    while i < items.len()
        invariant
            i <= items@.len(),
            scope_views(scopes@) == distinct_scopes(items@.take(i as int)),
        decreases items@.len() - i,
    {
        let scope: &Option<String> = &items[i].scope_uri;
        let ghost before = scope_views(scopes@);
        assert(items@.take(i + 1).drop_last() =~= items@.take(i as int));
        assert(items@.take(i + 1).last() == items@[i as int]);
        match find_scope(&scopes, scope) {
            Some(at) => {
                assert(before[at as int] == scope_view(*scope));
            },
            None => {
                let copy: Option<String> = match scope {
                    Some(scope) => Some(scope.clone()),
                    None => None,
                };
                scopes.push(copy);
                assert(scope_views(scopes@) =~= before.push(scope_view(*scope)));
            },
        }
        i += 1;
    }
    assert(items@.take(i as int) =~= items@);
    scopes
}

/// The answer to one item: the configuration of its scope, or the section of it that is
/// asked for. A section that is missing is answered with nothing, which is sent as null.
pub open spec fn answer(configuration: Json, section: Option<String>) -> Option<Json> {
    match section {
        Some(section) => configuration.at(section@),
        None => Some(configuration),
    }
}

/// The answers to a request, given the configurations of its scopes.
pub open spec fn is_answer(
    answers: Seq<Option<&Json>>,
    items: Seq<ConfigurationItem>,
    scopes: Seq<Option<String>>,
    configurations: Seq<Json>,
) -> bool {
    &&& answers.len() == items.len()
    &&& forall|i: int|
        0 <= i < items.len() ==> answers_item(#[trigger] answers[i], items[i], scopes, configurations)
}

/// The item is answered out of the configuration of its scope.
pub open spec fn answers_item(
    answered: Option<&Json>,
    item: ConfigurationItem,
    scopes: Seq<Option<String>>,
    configurations: Seq<Json>,
) -> bool {
    exists|k: int|
        0 <= k < scopes.len() && scope_view(#[trigger] scopes[k]) == scope_view(item.scope_uri)
            && answered == (match answer(configurations[k], item.section) {
            Some(value) => Some(&value),
            None => None,
        })
}

/// Answers a request for the workspace configuration, item by item.
pub fn workspace_configuration<'a>(
    items: &Vec<ConfigurationItem>,
    scopes: &Vec<Option<String>>,
    configurations: &'a Vec<Json>,
) -> (answers: Vec<Option<&'a Json>>)
    requires
        scope_views(scopes@) == distinct_scopes(items@),
        configurations@.len() == scopes@.len(),
    ensures
        is_answer(answers@, items@, scopes@, configurations@),
{
    let mut answers: Vec<Option<&'a Json>> = Vec::new();
    let mut i: usize = 0;
    while i < items.len()
        invariant
            i <= items@.len(),
            scope_views(scopes@) == distinct_scopes(items@),
            configurations@.len() == scopes@.len(),
            answers@.len() == i,
            forall|j: int|
                0 <= j < i ==> answers_item(
                    #[trigger] answers@[j],
                    items@[j],
                    scopes@,
                    configurations@,
                ),
        decreases items@.len() - i,
    {
        let item: &ConfigurationItem = &items[i];
        match find_scope(scopes, &item.scope_uri) {
            Some(at) => {
                let configuration: &'a Json = &configurations[at];
                let found: Option<&'a Json> = match &item.section {
                    Some(section) => configuration.get(section.as_str()),
                    None => Some(configuration),
                };
                assert(scope_view(scopes@[at as int]) == scope_view(item.scope_uri));
                answers.push(found);
            },
            None => {
                proof {
                    every_scope_is_queried(items@, i as int);
                }
                answers.push(None);
            },
        }
        i += 1;
    }
    answers
}

/// The scope of every item is among those that are looked up, so that every item gets
/// an answer.
pub proof fn every_scope_is_queried(items: Seq<ConfigurationItem>, i: int)
    requires
        0 <= i < items.len(),
    ensures
        distinct_scopes(items).contains(scope_view(items[i].scope_uri)),
    decreases items.len(),
{
    let earlier = distinct_scopes(items.drop_last());
    let all = distinct_scopes(items);
    if i < items.len() - 1 {
        every_scope_is_queried(items.drop_last(), i);
        let scope = scope_view(items[i].scope_uri);
        assert(earlier.contains(scope));
        let k = choose|k: int| 0 <= k < earlier.len() && earlier[k] == scope;
        assert(all[k] == scope);
    } else if !earlier.contains(scope_view(items.last().scope_uri)) {
        assert(all[earlier.len() as int] == scope_view(items.last().scope_uri));
    }
}

/// How grave a message of a server is.
#[derive(Clone, Copy, Debug, PartialEq, Eq, Structural)]
pub enum MessageType {
    Error,
    Warning,
    Info,
    Log,
}

#[derive(Clone, Copy, Debug, PartialEq, Eq, Structural)]
pub enum PromptLevel {
    Info,
    Warning,
    Critical,
}

pub open spec fn level_of(typ: MessageType) -> PromptLevel {
    match typ {
        MessageType::Error => PromptLevel::Critical,
        MessageType::Warning => PromptLevel::Warning,
        _ => PromptLevel::Info,
    }
}

/// The level at which a message is shown.
pub fn prompt_level(typ: MessageType) -> (level: PromptLevel)
    ensures
        level == level_of(typ),
{
    match typ {
        MessageType::Error => PromptLevel::Critical,
        MessageType::Warning => PromptLevel::Warning,
        _ => PromptLevel::Info,
    }
}

/// A message that is shown to the user, with the actions to choose from.
#[derive(Debug)]
pub struct LanguageServerPromptRequest {
    pub id: usize,
    pub level: PromptLevel,
    pub message: String,
    pub actions: Vec<String>,
    pub lsp_name: String,
}

impl LanguageServerPromptRequest {
    /// The action that the user chose, if there is one under that number.
    pub fn respond(&self, index: usize) -> (action: Option<&String>)
        ensures
            action == (if index < self.actions@.len() {
                Some(&self.actions@[index as int])
            } else {
                None
            }),
    {
        if index < self.actions.len() {
            Some(&self.actions[index])
        } else {
            None
        }
    }
}
/// The member that is found is the first of that name.
proof fn first_member_is_found(fields: Seq<(String, Json)>, name: Seq<char>, i: int)
    requires
        0 <= i <= fields.len(),
        forall|j: int| 0 <= j < i ==> (#[trigger] fields[j]).0@ != name,
        i < fields.len() ==> fields[i].0@ == name,
    ensures
        member(fields, name) == (if i < fields.len() {
            Some(fields[i].1)
        } else {
            None
        }),
    decreases fields.len(),
{
    if fields.len() > 0 && i > 0 {
        assert forall|j: int| 0 <= j < i - 1 implies (#[trigger] fields.skip(1)[j]).0@ != name by {
            assert(fields.skip(1)[j] == fields[j + 1]);
        }
        first_member_is_found(fields.skip(1), name, i - 1);
        if i < fields.len() {
            assert(fields.skip(1)[i - 1] == fields[i]);
        }
    }
}

/// An object holds under a name its first member of that name, and nothing if there is none.
/// What is no object holds nothing.
pub proof fn objects_hold_their_first_member(
    json: Json,
    fields: Vec<(String, Json)>,
    name: &str,
    i: int,
    value: Option<&Json>,
)
    requires
        call_ensures(Json::get, (&json, name), value),
        0 <= i <= fields@.len(),
        forall|j: int| 0 <= j < i ==> (#[trigger] fields@[j]).0@ != name@,
        i < fields@.len() ==> fields@[i].0@ == name@,
    ensures
        json == Json::Object(fields) && i < fields@.len() ==> value == Some(&fields@[i].1),
        json == Json::Object(fields) && i == fields@.len() ==> value is None,
        !(json is Object) ==> value is None,
{
    first_member_is_found(fields@, name@, i);
}

proof fn scopes_are_those_of_items(items: Seq<ConfigurationItem>)
    ensures
        distinct_scopes(items).no_duplicates(),
        forall|k: int|
            0 <= k < distinct_scopes(items).len() ==> exists|i: int|
                0 <= i < items.len() && scope_view((#[trigger] items[i]).scope_uri)
                    == #[trigger] distinct_scopes(items)[k],
    decreases items.len(),
{
    if items.len() > 0 {
        let shorter = items.drop_last();
        scopes_are_those_of_items(shorter);
        let scopes = distinct_scopes(items);
        let earlier = distinct_scopes(shorter);
        assert forall|k: int| 0 <= k < scopes.len() implies exists|i: int|
            0 <= i < items.len() && scope_view((#[trigger] items[i]).scope_uri)
                == #[trigger] scopes[k] by {
            if k < earlier.len() {
                assert(scopes[k] == earlier[k]);
                let i = choose|i: int|
                    0 <= i < shorter.len() && scope_view((#[trigger] shorter[i]).scope_uri)
                        == earlier[k];
                assert(items[i] == shorter[i]);
            } else {
                assert(items[items.len() - 1] == items.last());
            }
        }
    }
}

/// Each scope is looked up once, only scopes of items are, and that of every item is. Scopes
/// of further items come behind those of the items before them.
pub proof fn scopes_are_looked_up_once(
    items: Vec<ConfigurationItem>,
    scopes: Vec<Option<String>>,
    longer: Vec<ConfigurationItem>,
    more: Vec<Option<String>>,
    item: ConfigurationItem,
    i: int,
    j: int,
    k: int,
)
    requires
        call_ensures(scopes_to_query, (&items,), scopes),
        call_ensures(scopes_to_query, (&longer,), more),
        longer@ == items@.push(item),
        0 <= i < items@.len(),
        0 <= j < k < scopes@.len(),
    ensures
        exists|n: int|
            0 <= n < scopes@.len() && scope_view(#[trigger] scopes@[n]) == scope_view(
                items@[i].scope_uri,
            ),
        scope_view(scopes@[j]) != scope_view(scopes@[k]),
        exists|n: int|
            0 <= n < items@.len() && scope_view((#[trigger] items@[n]).scope_uri) == scope_view(
                scopes@[k],
            ),
        scope_view(more@[k]) == scope_view(scopes@[k]),
        more@.len() <= scopes@.len() + 1,
        more@.len() == scopes@.len() + 1 ==> scope_view(more@.last()) == scope_view(
            item.scope_uri,
        ),
{
    let views = scope_views(scopes@);
    let after = scope_views(more@);
    assert(views.len() == scopes@.len() && after.len() == more@.len());
    every_scope_is_queried(items@, i);
    let n = choose|n: int|
        0 <= n < views.len() && views[n] == scope_view(items@[i].scope_uri);
    assert(scope_view(scopes@[n]) == scope_view(items@[i].scope_uri));
    scopes_are_those_of_items(items@);
    assert(views[j] == scope_view(scopes@[j]) && views[k] == scope_view(scopes@[k]));
    assert(distinct_scopes(items@)[k] == scope_view(scopes@[k]));
    assert(longer@.drop_last() =~= items@);
    assert(after[k] == scope_view(more@[k]));
    if more@.len() == scopes@.len() + 1 {
        assert(after.last() == scope_view(more@.last()));
    }
}

/// An item is answered out of the configuration of its scope: with all of it, or with what it
/// holds under the section that is asked for.
pub proof fn items_are_answered_by_scope(
    items: Vec<ConfigurationItem>,
    scopes: Vec<Option<String>>,
    configurations: Vec<Json>,
    answers: Vec<Option<&Json>>,
    i: int,
    k: int,
    section: &str,
    value: Option<&Json>,
)
    requires
        scope_views(scopes@) == distinct_scopes(items@),
        call_ensures(workspace_configuration, (&items, &scopes, &configurations), answers),
        0 <= i < items@.len(),
        0 <= k < scopes@.len(),
        scope_view(scopes@[k]) == scope_view(items@[i].scope_uri),
        call_ensures(Json::get, (&configurations@[k], section), value),
    ensures
        answers@.len() == items@.len(),
        items@[i].section is None ==> answers@[i] == Some(&configurations@[k]),
        items@[i].section is Some && items@[i].section->0@ == section@ ==> answers@[i] == value,
{
    scopes_are_those_of_items(items@);
    let views = scope_views(scopes@);
    assert(answers_item(answers@[i], items@[i], scopes@, configurations@));
    let n = choose|n: int|
        0 <= n < scopes@.len() && scope_view(#[trigger] scopes@[n]) == scope_view(
            items@[i].scope_uri,
        ) && answers@[i] == (match answer(configurations@[n], items@[i].section) {
            Some(value) => Some(&value),
            None => None,
        });
    assert(views[n] == scope_view(scopes@[n]) && views[k] == scope_view(scopes@[k]));
    assert(n == k);
}

/// Errors are critical, warnings are warnings, and all else is information.
pub proof fn messages_are_shown_as_grave_as_they_are(typ: MessageType, level: PromptLevel)
    requires
        call_ensures(prompt_level, (typ,), level),
    ensures
        typ is Error <==> level is Critical,
        typ is Warning <==> level is Warning,
        typ is Info || typ is Log <==> level is Info,
{
}

/// The choice of the user is the action that was offered under its number.
pub proof fn choices_are_offered_actions(
    request: LanguageServerPromptRequest,
    index: usize,
    action: Option<&String>,
)
    requires
        call_ensures(LanguageServerPromptRequest::respond, (&request, index), action),
    ensures
        index < request.actions@.len() ==> action == Some(&request.actions@[index as int]),
        index >= request.actions@.len() ==> action is None,
{
}

} // verus!
