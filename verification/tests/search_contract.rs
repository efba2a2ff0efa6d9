use confluence_cli::commands::search::{escape_cql_text, search_output, SearchArgs};
use confluence_cli::json::Json;

#[test]
fn escape_cql_text_escapes_backslashes_and_quotes() {
    assert_eq!(
        escape_cql_text(r#"deploy \ "guide""#),
        r#"deploy \\ \"guide\""#
    );
}

#[test]
fn query_builds_conservative_text_cql() {
    let args = SearchArgs {
        query: Some("deploy".to_string()),
        cql: None,
    };
    assert_eq!(args.cql().unwrap(), "text ~ \"deploy\"");
}

#[test]
fn query_with_quotes_is_escaped_inside_the_literal() {
    let args = SearchArgs {
        query: Some("say \"hi\"".to_string()),
        cql: None,
    };
    assert_eq!(args.cql().unwrap(), "text ~ \"say \\\"hi\\\"\"");
}

#[test]
fn raw_cql_passes_through_unchanged() {
    let args = SearchArgs {
        query: None,
        cql: Some("space = ENG and text ~ \"deploy\"".to_string()),
    };
    assert_eq!(args.cql().unwrap(), "space = ENG and text ~ \"deploy\"");
}

#[test]
fn both_or_neither_flag_is_a_validation_error() {
    let both = SearchArgs {
        query: Some("a".to_string()),
        cql: Some("b".to_string()),
    };
    let error = both.cql().unwrap_err();
    assert_eq!(error.code.as_str(), "confluence_validation_failed");
    assert_eq!(error.message, "Provide exactly one of --query or --cql.");

    let neither = SearchArgs {
        query: None,
        cql: None,
    };
    assert_eq!(
        neither.cql().unwrap_err().code.as_str(),
        "confluence_validation_failed"
    );
}

#[test]
fn escaping_leaves_plain_text_alone() {
    assert_eq!(escape_cql_text("release notes 2024"), "release notes 2024");
    assert_eq!(escape_cql_text(""), "");
}

#[test]
fn search_output_reports_the_cql_and_result() {
    let output = search_output("text ~ \"deploy\"".to_string(), Json::Null);
    assert_eq!(output.command, "search");
    assert!(!output.dry_run);
    match output.data {
        Json::Object(members) => {
            assert_eq!(members.len(), 2);
            assert_eq!(members[0].0, "cql");
            assert!(matches!(&members[0].1, Json::Str(s) if s == "text ~ \"deploy\""));
            assert_eq!(members[1].0, "result");
        }
        _ => panic!("search output must be an object"),
    }
}
