//! Linear: the GraphQL request for the issues assigned to the user, and
//! what the library makes of the response.

use vstd::prelude::*;
use crate::json::{field_views, json_string_object, write_string_object};
use crate::text::opt_chars;

verus! {

/// An open issue assigned to the user in Linear.
#[derive(Clone, Debug)]
pub struct LinearIssue {
    pub id: String,
    pub identifier: String,
    pub title: String,
    pub url: String,
    pub updated_at: String,
    pub state_name: String,
    pub state_type: String,
    pub priority_label: String,
    pub description: Option<String>,
    pub source_metadata: String,
}

/// The workflow state of an issue node.
#[derive(Clone, Debug)]
pub struct IssueState {
    pub name: String,
    pub state_type: String,
}

/// An issue as the GraphQL response lists it.
#[derive(Clone, Debug)]
pub struct IssueNode {
    pub id: String,
    pub identifier: String,
    pub title: String,
    pub url: String,
    pub updated_at: String,
    pub state: IssueState,
    pub priority_label: String,
    pub description: Option<String>,
}

/// An error that the GraphQL response reports.
#[derive(Clone, Debug)]
pub struct GqlError {
    pub message: String,
}

/// The GraphQL response: the assigned issue nodes where the response has
/// data, and the errors where it reports any.
#[derive(Clone, Debug)]
pub struct GqlResponse {
    pub nodes: Option<Vec<IssueNode>>,
    pub errors: Option<Vec<GqlError>>,
}

/// What came of the request for the assigned issues.
pub enum LinearOutcome {
    /// The request could not be sent; the error's text.
    SendFailed(String),
    /// The response's status, as text, is not a success.
    BadStatus(String),
    /// The body could not be read as a GraphQL response; the error's text.
    ParseFailed(String),
    /// The GraphQL response.
    Parsed(GqlResponse),
}

/// The GraphQL query for the user's assigned issues that are neither
/// completed nor canceled, a hundred at most, by update time.
pub const GRAPHQL_QUERY: &'static str = "
query {
    viewer {
        assignedIssues(
            filter: { state: { type: { nin: [\"completed\", \"canceled\"] } } }
            first: 100
            orderBy: updatedAt
        ) {
            nodes {
                id
                identifier
                title
                url
                updatedAt
                state { name type }
                priority
                priorityLabel
                description
            }
        }
    }
}
";

/// The body of the GraphQL request: a JSON object whose `query` is [`GRAPHQL_QUERY`].
pub fn request_body() -> (r: String)
    ensures
        r@ == json_string_object(seq![("query"@, GRAPHQL_QUERY@)]),
{
    let mut fields: Vec<(String, String)> = Vec::new();
    fields.push(("query".to_owned(), GRAPHQL_QUERY.to_owned()));
    let r = write_string_object(&fields);
    assert(field_views(fields@) =~= seq![("query"@, GRAPHQL_QUERY@)]);
    r
}

/// The source metadata of an issue: its priority label and state type, as JSON.
pub open spec fn linear_metadata(priority_label: Seq<char>, state_type: Seq<char>) -> Seq<char> {
    json_string_object(seq![("priority_label"@, priority_label), ("state_type"@, state_type)])
}

/// `issue` is what the conversion makes of `node`.
pub open spec fn issue_from_node(issue: LinearIssue, node: IssueNode) -> bool {
    &&& issue.id@ == node.id@
    &&& issue.identifier@ == node.identifier@
    &&& issue.title@ == node.title@
    &&& issue.url@ == node.url@
    &&& issue.updated_at@ == node.updated_at@
    &&& issue.state_name@ == node.state.name@
    &&& issue.state_type@ == node.state.state_type@
    &&& issue.priority_label@ == node.priority_label@
    &&& opt_chars(issue.description) == opt_chars(node.description)
    &&& issue.source_metadata@ == linear_metadata(node.priority_label@, node.state.state_type@)
}

/// Converts one issue node into an issue.
pub fn convert_node(node: IssueNode) -> (r: LinearIssue)
    ensures
        issue_from_node(r, node),
{
    let mut fields: Vec<(String, String)> = Vec::new();
    fields.push(("priority_label".to_owned(), node.priority_label.clone()));
    fields.push(("state_type".to_owned(), node.state.state_type.clone()));
    let source_metadata = write_string_object(&fields);
    assert(field_views(fields@) =~= seq![
        ("priority_label"@, node.priority_label@),
        ("state_type"@, node.state.state_type@),
    ]);
    LinearIssue {
        id: node.id,
        identifier: node.identifier,
        title: node.title,
        url: node.url,
        updated_at: node.updated_at,
        state_name: node.state.name,
        state_type: node.state.state_type,
        priority_label: node.priority_label,
        description: node.description,
        source_metadata,
    }
}

/// The texts joined, with `sep` between each two.
pub open spec fn join(items: Seq<Seq<char>>, sep: Seq<char>) -> Seq<char>
    decreases items.len(),
{
    if items.len() == 0 {
        Seq::empty()
    } else if items.len() == 1 {
        items[0]
    } else {
        join(items.drop_last(), sep) + sep + items.last()
    }
}

/// The messages of the errors, in order.
pub open spec fn error_messages(errors: Seq<GqlError>) -> Seq<Seq<char>> {
    errors.map_values(|e: GqlError| e.message@)
}

/// The messages of the errors joined with `, `.
fn join_messages(errors: &Vec<GqlError>) -> (r: String)
    ensures
        r@ == join(error_messages(errors@), ", "@),
{
    let ghost msgs = error_messages(errors@);
    let mut r = String::new();
    let mut i: usize = 0;
    while i < errors.len()
        invariant
            i <= errors.len(),
            msgs == error_messages(errors@),
            r@ == join(msgs.take(i as int), ", "@),
        decreases errors.len() - i,
    {
        assert(msgs.take(i + 1).drop_last() =~= msgs.take(i as int));
        if i != 0 {
            r.append(", ");
        }
        r.append(errors[i].message.as_str());
        i = i + 1;
    }
    assert(msgs.take(errors.len() as int) =~= msgs);
    r
}

/// The issues of a GraphQL response; an error where the response reports
/// errors or holds no data.
pub fn issues_from_response(gql: GqlResponse) -> (r: Result<Vec<LinearIssue>, String>)
    ensures
        match gql.errors {
            Some(errs) => r matches Err(m) && m@ == "Linear GraphQL errors: "@ + join(
                error_messages(errs@),
                ", "@,
            ),
            None => match gql.nodes {
                None => r matches Err(m) && m@ == "No data in Linear response"@,
                Some(nodes) => r matches Ok(v) && v.len() == nodes.len() && forall|i: int|
                    0 <= i < nodes.len() ==> issue_from_node(#[trigger] v@[i], nodes@[i]),
            },
        },
{
    match gql.errors {
        Some(errs) => {
            let mut m = "Linear GraphQL errors: ".to_owned();
            let joined = join_messages(&errs);
            m.append(joined.as_str());
            Err(m)
        },
        None => match gql.nodes {
            None => Err("No data in Linear response".to_owned()),
            Some(nodes) => {
                let ghost all = nodes@;
                let mut v: Vec<LinearIssue> = Vec::new();
                for node in it: nodes
                    invariant
                        it.seq() == all,
                        v.len() == it.index(),
                        forall|i: int| 0 <= i < v.len() ==> issue_from_node(#[trigger] v@[i], all[i]),
                {
                    v.push(convert_node(node));
                }
                Ok(v)
            },
        },
    }
}

/// The assigned issues, or the error message for what went wrong.
pub fn assigned_issues_from(outcome: LinearOutcome) -> (r: Result<Vec<LinearIssue>, String>)
    ensures
        match outcome {
            LinearOutcome::SendFailed(e) => r matches Err(m) && m@ == "Linear API request failed: "@
                + e@,
            LinearOutcome::BadStatus(s) => r matches Err(m) && m@ == "Linear API returned status "@
                + s@,
            LinearOutcome::ParseFailed(e) => r matches Err(m) && m@
                == "Failed to parse Linear response: "@ + e@,
            LinearOutcome::Parsed(gql) => match gql.errors {
                Some(errs) => r matches Err(m) && m@ == "Linear GraphQL errors: "@ + join(
                    error_messages(errs@),
                    ", "@,
                ),
                None => match gql.nodes {
                    None => r matches Err(m) && m@ == "No data in Linear response"@,
                    Some(nodes) => r matches Ok(v) && v.len() == nodes.len() && forall|i: int|
                        0 <= i < nodes.len() ==> issue_from_node(#[trigger] v@[i], nodes@[i]),
                },
            },
        },
{
    match outcome {
        LinearOutcome::SendFailed(e) => {
            let mut m = "Linear API request failed: ".to_owned();
            m.append(e.as_str());
            Err(m)
        },
        LinearOutcome::BadStatus(s) => {
            let mut m = "Linear API returned status ".to_owned();
            m.append(s.as_str());
            Err(m)
        },
        LinearOutcome::ParseFailed(e) => {
            let mut m = "Failed to parse Linear response: ".to_owned();
            m.append(e.as_str());
            Err(m)
        },
        LinearOutcome::Parsed(gql) => issues_from_response(gql),
    }
}

} // verus!
