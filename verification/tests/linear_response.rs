use tasklane::linear::{
    assigned_issues_from, convert_node, issues_from_response, request_body, GqlError,
    GqlResponse, IssueNode, IssueState, LinearOutcome, GRAPHQL_QUERY,
};

fn node(identifier: &str, priority_label: &str, state_type: &str) -> IssueNode {
    IssueNode {
        id: format!("id-{}", identifier),
        identifier: identifier.to_string(),
        title: format!("Title {}", identifier),
        url: format!("https://linear.app/t/{}", identifier),
        updated_at: "2024-03-01T12:00:00.000Z".to_string(),
        state: IssueState { name: "In Progress".to_string(), state_type: state_type.to_string() },
        priority_label: priority_label.to_string(),
        description: None,
    }
}

#[test]
fn convert_node_fields() {
    let issue = convert_node(node("ENG-1", "High", "started"));
    assert_eq!(issue.id, "id-ENG-1");
    assert_eq!(issue.identifier, "ENG-1");
    assert_eq!(issue.title, "Title ENG-1");
    assert_eq!(issue.url, "https://linear.app/t/ENG-1");
    assert_eq!(issue.updated_at, "2024-03-01T12:00:00.000Z");
    assert_eq!(issue.state_name, "In Progress");
    assert_eq!(issue.state_type, "started");
    assert_eq!(issue.priority_label, "High");
    assert_eq!(issue.description, None);
    assert_eq!(issue.source_metadata, r#"{"priority_label":"High","state_type":"started"}"#);
}

#[test]
fn issues_from_response_keeps_order() {
    let gql = GqlResponse {
        nodes: Some(vec![node("ENG-1", "High", "started"), node("ENG-2", "No priority", "unstarted")]),
        errors: None,
    };
    let issues = issues_from_response(gql).unwrap();
    assert_eq!(issues.len(), 2);
    assert_eq!(issues[0].identifier, "ENG-1");
    assert_eq!(issues[1].identifier, "ENG-2");
    assert_eq!(
        issues[1].source_metadata,
        r#"{"priority_label":"No priority","state_type":"unstarted"}"#
    );
}

#[test]
fn issues_from_response_reports_errors() {
    let gql = GqlResponse {
        nodes: Some(vec![node("ENG-1", "High", "started")]),
        errors: Some(vec![
            GqlError { message: "Authentication required".to_string() },
            GqlError { message: "Rate limited".to_string() },
        ]),
    };
    assert_eq!(
        issues_from_response(gql).unwrap_err(),
        "Linear GraphQL errors: Authentication required, Rate limited"
    );
    let gql = GqlResponse { nodes: None, errors: Some(Vec::new()) };
    assert_eq!(issues_from_response(gql).unwrap_err(), "Linear GraphQL errors: ");
}

#[test]
fn issues_from_response_without_data() {
    let gql = GqlResponse { nodes: None, errors: None };
    assert_eq!(issues_from_response(gql).unwrap_err(), "No data in Linear response");
}

#[test]
fn assigned_issues_error_messages() {
    assert_eq!(
        assigned_issues_from(LinearOutcome::SendFailed("dns error".to_string())).unwrap_err(),
        "Linear API request failed: dns error"
    );
    assert_eq!(
        assigned_issues_from(LinearOutcome::BadStatus("401 Unauthorized".to_string())).unwrap_err(),
        "Linear API returned status 401 Unauthorized"
    );
    assert_eq!(
        assigned_issues_from(LinearOutcome::ParseFailed("expected value".to_string())).unwrap_err(),
        "Failed to parse Linear response: expected value"
    );
    let ok = assigned_issues_from(LinearOutcome::Parsed(GqlResponse { nodes: Some(Vec::new()), errors: None }));
    assert!(ok.unwrap().is_empty());
}

#[test]
fn request_body_holds_the_query() {
    let body = request_body();
    let expected = format!("{{\"query\":{}}}", serde_json::to_string(GRAPHQL_QUERY).unwrap());
    assert_eq!(body, expected);
    assert!(body.starts_with("{\"query\":\"\\nquery {"));
    assert!(GRAPHQL_QUERY.contains("nin: [\"completed\", \"canceled\"]"));
}
