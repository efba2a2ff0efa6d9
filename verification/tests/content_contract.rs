use confluence_cli::content::{
    check_supported, has_scheme, headings_from_events, is_safe_link_destination,
    markdown_to_storage, storage_to_storage, MdEvent,
};
use confluence_cli::dry_run::{create_dry_run, WriteTarget};
use confluence_cli::json::Json;

fn to_value(json: &Json) -> serde_json::Value {
    match json {
        Json::Null => serde_json::Value::Null,
        Json::Bool(b) => serde_json::Value::Bool(*b),
        Json::Number(n) => serde_json::Value::Number(n.parse().unwrap()),
        Json::Str(s) => serde_json::Value::String(s.clone()),
        Json::Array(items) => serde_json::Value::Array(items.iter().map(to_value).collect()),
        Json::Object(members) => {
            let mut map = serde_json::Map::new();
            for (key, value) in members {
                map.insert(key.clone(), to_value(value));
            }
            serde_json::Value::Object(map)
        }
    }
}

#[test]
fn markdown_conversion_supports_common_subset() {
    let converted =
        markdown_to_storage("# Title\n\nA **bold** [link](https://example.com).\n\n- one\n- two\n")
            .unwrap();

    assert!(converted.storage_html.contains("<h1>Title</h1>"));
    assert!(converted.storage_html.contains("<strong>bold</strong>"));
    assert!(converted
        .storage_html
        .contains("<a href=\"https://example.com\">link</a>"));
    assert!(converted.storage_html.contains("<ul>"));
    assert_eq!(converted.headings, vec!["Title"]);
}

#[test]
fn unsupported_image_returns_stable_error_code() {
    let error = markdown_to_storage("![alt](image.png)").unwrap_err();

    assert_eq!(error.code.as_str(), "unsupported_markdown");
}

#[test]
fn unsafe_link_scheme_returns_stable_error_code() {
    let error = markdown_to_storage("[bad](javascript:alert(1))").unwrap_err();

    assert_eq!(error.code.as_str(), "unsupported_markdown");
}

#[test]
fn safe_link_destinations_are_accepted() {
    let converted = markdown_to_storage(
        "[https](https://example.com) [relative](/spaces/ENG/pages/123) [parent](../page) [anchor](#section) [mail](mailto:user@example.com)",
    )
    .unwrap();

    assert!(converted
        .storage_html
        .contains("<a href=\"https://example.com\">https</a>"));
    assert!(converted
        .storage_html
        .contains("<a href=\"/spaces/ENG/pages/123\">relative</a>"));
    assert!(converted
        .storage_html
        .contains("<a href=\"../page\">parent</a>"));
    assert!(converted
        .storage_html
        .contains("<a href=\"#section\">anchor</a>"));
    assert!(converted
        .storage_html
        .contains("<a href=\"mailto:user@example.com\">mail</a>"));
}

#[test]
fn heading_extraction_uses_enabled_inline_extensions() {
    let converted = markdown_to_storage("# ~~Gone~~ now").unwrap();

    assert_eq!(converted.headings, vec!["Gone now"]);
    assert!(!converted.headings[0].contains("~~"));
}

#[test]
fn storage_representation_passes_confluence_storage_through() {
    let storage = r#"<ac:structured-macro ac:name="recently-updated" ac:schema-version="1"><ac:parameter ac:name="max">5</ac:parameter></ac:structured-macro>"#;

    let converted = storage_to_storage(storage).unwrap();

    assert_eq!(converted.storage_html, storage);
    assert_eq!(converted.source_representation, "storage");
    assert_eq!(converted.source_bytes, storage.len());
    assert_eq!(converted.storage_html_bytes, storage.len());
    assert!(converted.headings.is_empty());
}

#[test]
fn dry_run_summary_excludes_full_body() {
    let converted = markdown_to_storage("# Title\n\nBody").unwrap();
    let summary = create_dry_run(
        "POST",
        "/api/v2/pages".to_string(),
        WriteTarget::Create {
            space_key: "ENG".to_string(),
            space_id: "987".to_string(),
            parent_id: Some("123".to_string()),
        },
        "Title",
        &converted,
    );
    let text = serde_json::to_string(&to_value(&summary)).unwrap();

    assert!(text.contains("\"method\":\"POST\""));
    assert!(text.contains("\"space_key\":\"ENG\""));
    assert!(text.contains("\"storage_html_bytes\""));
    assert!(!text.contains("<h1>Title</h1>"));
}

#[test]
fn dry_run_update_summary_excludes_full_body() {
    let converted = markdown_to_storage("# Title\n\nBody").unwrap();
    let summary = create_dry_run(
        "PUT",
        "/api/v2/pages/123".to_string(),
        WriteTarget::Update {
            page_id: "123".to_string(),
            current_version: 7,
            next_version: 8,
        },
        "Title",
        &converted,
    );
    let text = serde_json::to_string(&to_value(&summary)).unwrap();

    assert!(text.contains("\"method\":\"PUT\""));
    assert!(text.contains("\"page_id\":\"123\""));
    assert!(text.contains("\"current_version\":7"));
    assert!(text.contains("\"next_version\":8"));
    assert!(text.contains("\"storage_html_bytes\""));
    assert!(!text.contains("<h1>Title</h1>"));
}

#[test]
fn dry_run_reports_byte_counts_and_headings() {
    let converted = markdown_to_storage("# Title\n\nBody").unwrap();
    let summary = create_dry_run(
        "POST",
        "/api/v2/pages".to_string(),
        WriteTarget::Create {
            space_key: "ENG".to_string(),
            space_id: "987".to_string(),
            parent_id: None,
        },
        "Title",
        &converted,
    );
    let value = to_value(&summary);
    assert_eq!(value["body"]["summary"]["markdown_bytes"], 13);
    assert_eq!(
        value["body"]["summary"]["storage_html_bytes"],
        converted.storage_html.len()
    );
    assert_eq!(value["body"]["summary"]["headings"][0], "Title");
    assert_eq!(value["target"]["kind"], "create");
    assert!(value["target"]["parent_id"].is_null());
    assert_eq!(value["payload_preview"]["body"]["value"], "[omitted]");
    assert_eq!(value["payload_preview"]["status"], "current");
}

#[test]
fn raw_html_is_refused() {
    let error = markdown_to_storage("<div>raw</div>\n").unwrap_err();
    assert_eq!(error.code.as_str(), "unsupported_markdown");
    assert_eq!(error.message, "Raw HTML is not supported by the first release.");
    let inline = markdown_to_storage("text <b>bold</b>").unwrap_err();
    assert_eq!(inline.code.as_str(), "unsupported_markdown");
}

#[test]
fn the_first_refused_event_decides_the_message() {
    let events = vec![
        MdEvent::StartLink("javascript:x".to_string()),
        MdEvent::StartImage,
    ];
    let error = check_supported(&events).unwrap_err();
    assert_eq!(error.message, "Link destination scheme is not supported.");
    let events = vec![MdEvent::Text("x".to_string()), MdEvent::StartImage];
    let error = check_supported(&events).unwrap_err();
    assert_eq!(
        error.message,
        "Images and attachments are not supported by the first release."
    );
    assert!(check_supported(&[MdEvent::Other, MdEvent::Text("a".to_string())]).is_ok());
}

#[test]
fn link_destinations() {
    assert!(is_safe_link_destination("HTTPS://EXAMPLE.COM"));
    assert!(is_safe_link_destination("  https://example.com  "));
    assert!(is_safe_link_destination("./page"));
    assert!(is_safe_link_destination("page/child"));
    assert!(is_safe_link_destination("page?x=a:b"));
    assert!(!is_safe_link_destination(""));
    assert!(!is_safe_link_destination("   "));
    assert!(!is_safe_link_destination("javascript:alert(1)"));
    assert!(!is_safe_link_destination("ftp://example.com"));
    assert!(!is_safe_link_destination("data:text/html,x"));
    assert!(has_scheme("a+b-c.d:rest"));
    assert!(!has_scheme("1abc:rest"));
    assert!(!has_scheme("abc/def:rest"));
    assert!(!has_scheme("abc"));
}

#[test]
fn at_most_five_headings_are_reported() {
    let converted =
        markdown_to_storage("# a\n\n## b\n\n### c\n\n# d\n\n# e\n\n# f\n\n# g\n").unwrap();
    assert_eq!(converted.headings, vec!["a", "b", "c", "d", "e"]);
}

#[test]
fn blank_headings_are_skipped_and_text_is_trimmed() {
    let events = vec![
        MdEvent::StartHeading,
        MdEvent::Text("  ".to_string()),
        MdEvent::EndHeading,
        MdEvent::StartHeading,
        MdEvent::Text(" Use ".to_string()),
        MdEvent::Code("cargo".to_string()),
        MdEvent::Text(" now ".to_string()),
        MdEvent::EndHeading,
        MdEvent::Text("outside".to_string()),
    ];
    assert_eq!(headings_from_events(&events), vec!["Use cargo now"]);
}

#[test]
fn byte_counts_are_utf8_lengths() {
    let converted = markdown_to_storage("# Café\n").unwrap();
    assert_eq!(converted.markdown_bytes, "# Café\n".len());
    assert_eq!(converted.source_bytes, "# Café\n".len());
    assert_eq!(converted.source_representation, "markdown");
    assert_eq!(converted.storage_html_bytes, converted.storage_html.len());
}
