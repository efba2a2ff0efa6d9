use confluence_cli::client::{Page, PageVersion, Space};
use confluence_cli::commands::page_body::{
    infer_body_representation, read_body_file, BodyRepresentation,
};
use confluence_cli::commands::page_create::{plan_page_create, PageCreateArgs, PageCreatePlan};
use confluence_cli::commands::page_get::page_get_output;
use confluence_cli::commands::page_update::{
    current_version, plan_page_update, PageUpdateArgs, PageUpdatePlan,
};
use confluence_cli::commands::space_list::space_list_output;
use confluence_cli::commands::{command_name, Commands, PageCommand};
use confluence_cli::content::markdown_to_storage;
use confluence_cli::json::Json;

fn to_value(json: &Json) -> serde_json::Value {
    match json {
        Json::Null => serde_json::Value::Null,
        Json::Bool(b) => serde_json::Value::Bool(*b),
        Json::Number(n) => serde_json::Value::Number(n.parse().unwrap()),
        Json::Str(s) => serde_json::Value::String(s.clone()),
        Json::Array(items) => serde_json::Value::Array(items.iter().map(to_value).collect()),
        Json::Object(members) => {
            let mut map = serde_json::Map::new();
            for (key, value) in members {
                map.insert(key.clone(), to_value(value));
            }
            serde_json::Value::Object(map)
        }
    }
}

fn create_args(execute: bool) -> PageCreateArgs {
    PageCreateArgs {
        space_key: "ENG".to_string(),
        title: "New Page".to_string(),
        body_file: "body.md".to_string(),
        body_representation: None,
        parent_id: Some("123".to_string()),
        execute,
    }
}

fn update_args(execute: bool) -> PageUpdateArgs {
    PageUpdateArgs {
        page_id: "123".to_string(),
        title: "Title".to_string(),
        body_file: "body.md".to_string(),
        body_representation: None,
        execute,
    }
}

#[test]
fn page_create_without_execute_is_a_dry_run() {
    let converted = markdown_to_storage("# New Page\n\nBody").unwrap();
    match plan_page_create(create_args(false), "987".to_string(), converted) {
        PageCreatePlan::DryRun(output) => {
            assert_eq!(output.command, "page.create");
            assert!(output.dry_run);
            let data = to_value(&output.data);
            assert_eq!(data["endpoint"], "/api/v2/pages");
            assert_eq!(data["method"], "POST");
            assert_eq!(data["target"]["space_id"], "987");
            assert_eq!(data["target"]["parent_id"], "123");
        }
        PageCreatePlan::Execute(_) => panic!("no write without --execute"),
    }
}

#[test]
fn page_create_with_execute_sends_the_body() {
    let converted = markdown_to_storage("# New Page\n\nBody").unwrap();
    let html = converted.storage_html.clone();
    match plan_page_create(create_args(true), "987".to_string(), converted) {
        PageCreatePlan::Execute(request) => {
            assert_eq!(request.space_id, "987");
            assert_eq!(request.title, "New Page");
            assert_eq!(request.parent_id.as_deref(), Some("123"));
            assert_eq!(request.storage_html, html);
        }
        PageCreatePlan::DryRun(_) => panic!("--execute writes"),
    }
}

#[test]
fn page_update_reads_version_and_writes_the_next() {
    let page = Page {
        id: "123".to_string(),
        status: "current".to_string(),
        title: "Title".to_string(),
        space_id: Some("987".to_string()),
        parent_id: None,
        version: Some(PageVersion { number: 7 }),
        body: None,
        links: None,
    };
    let current = current_version(&page).unwrap();
    assert_eq!(current, 7);
    let converted = markdown_to_storage("# Title\n\nBody").unwrap();
    match plan_page_update(update_args(false), current, converted) {
        PageUpdatePlan::DryRun(output) => {
            let data = to_value(&output.data);
            assert_eq!(output.command, "page.update");
            assert_eq!(data["endpoint"], "/api/v2/pages/123");
            assert_eq!(data["method"], "PUT");
            assert_eq!(data["target"]["current_version"], 7);
            assert_eq!(data["target"]["next_version"], 8);
        }
        PageUpdatePlan::Execute(_) => panic!("no write without --execute"),
    }
    let converted = markdown_to_storage("# Title\n\nBody").unwrap();
    match plan_page_update(update_args(true), current, converted) {
        PageUpdatePlan::Execute(request) => {
            assert_eq!(request.page_id, "123");
            assert_eq!(request.next_version, 8);
        }
        PageUpdatePlan::DryRun(_) => panic!("--execute writes"),
    }
}

#[test]
fn page_without_version_cannot_be_updated() {
    let page = Page {
        id: "1".to_string(),
        status: "current".to_string(),
        title: "T".to_string(),
        space_id: None,
        parent_id: None,
        version: None,
        body: None,
        links: None,
    };
    let error = current_version(&page).unwrap_err();
    assert_eq!(error.code.as_str(), "confluence_validation_failed");
}

#[test]
fn body_format_is_inferred_from_the_file_name() {
    assert_eq!(infer_body_representation("page.md"), BodyRepresentation::Markdown);
    assert_eq!(infer_body_representation("page.storage"), BodyRepresentation::Storage);
    assert_eq!(infer_body_representation("dir/page.STORAGE.XML"), BodyRepresentation::Storage);
    assert_eq!(infer_body_representation("page.xml"), BodyRepresentation::Storage);
    assert_eq!(infer_body_representation("page"), BodyRepresentation::Markdown);
    assert_eq!(infer_body_representation(".."), BodyRepresentation::Markdown);
}

#[test]
fn body_reading_honours_the_requested_format() {
    let storage = read_body_file(
        "page.md",
        Some(BodyRepresentation::Storage),
        Ok("<p>x</p>".to_string()),
    )
    .unwrap();
    assert_eq!(storage.storage_html, "<p>x</p>");
    assert_eq!(storage.source_representation, "storage");
    let markdown = read_body_file("page.xml", Some(BodyRepresentation::Markdown), Ok("# H".to_string()))
        .unwrap();
    assert_eq!(markdown.source_representation, "markdown");
    assert_eq!(markdown.headings, vec!["H"]);
    let inferred = read_body_file("page.storage.xml", None, Ok("<p>y</p>".to_string())).unwrap();
    assert_eq!(inferred.storage_html, "<p>y</p>");
}

#[test]
fn unreadable_body_file_is_a_conversion_failure() {
    let error = read_body_file("page.md", None, Err("No such file".to_string())).unwrap_err();
    assert_eq!(error.code.as_str(), "markdown_conversion_failed");
    assert_eq!(error.message, "Failed to read body file: No such file");
}

#[test]
fn page_get_output_uses_camel_case_members() {
    let page = Page {
        id: "123".to_string(),
        status: "current".to_string(),
        title: "Deploy Guide".to_string(),
        space_id: Some("987".to_string()),
        parent_id: None,
        version: Some(PageVersion { number: 7 }),
        body: Some(Json::Str("b".to_string())),
        links: None,
    };
    let output = page_get_output(page);
    assert_eq!(output.command, "page.get");
    let data = to_value(&output.data);
    assert_eq!(data["title"], "Deploy Guide");
    assert_eq!(data["spaceId"], "987");
    assert!(data["parentId"].is_null());
    assert_eq!(data["version"]["number"], 7);
    assert_eq!(data["body"], "b");
    assert!(data["_links"].is_null());
}

#[test]
fn space_list_output_lists_spaces() {
    let spaces = vec![Space {
        id: "987".to_string(),
        key: "ENG".to_string(),
        name: "Engineering".to_string(),
    }];
    let output = space_list_output(&spaces);
    assert_eq!(output.command, "space.list");
    let data = to_value(&output.data);
    assert_eq!(data["spaces"][0]["key"], "ENG");
    assert_eq!(data["spaces"][0]["id"], "987");
    assert_eq!(data["spaces"][0]["name"], "Engineering");
}

#[test]
fn command_names_are_stable() {
    let c = Commands::Page {
        command: PageCommand::Update(update_args(false)),
    };
    assert_eq!(command_name(&c), "page.update");
}
