use libmcptool::args::{ArgValue, ArgumentParser};
use libmcptool::display::{Entry, Line};
use libmcptool::formatters::{ContentAnnotations, ContentBlock, ResourceContents, Role};
use libmcptool::listings::{
    call_tool_result, list_prompts_result, list_resource_templates_result, list_resources_result,
    list_tools_result, sort_properties, PromptArgInfo, PromptInfo, PropertyInfo, ResourceInfo,
    SchemaType, TemplateInfo, ToolInfo, ToolResult,
};

fn e(indent: usize, line: Line) -> Entry {
    Entry { indent, line }
}

fn text(s: &str) -> Line {
    Line::Text(s.to_string())
}

fn kv(k: &str, v: &str) -> Line {
    Line::Kv(k.to_string(), v.to_string())
}

fn prop(name: &str, required: bool, ty: SchemaType, description: Option<&str>, rest: Option<&str>) -> PropertyInfo {
    PropertyInfo {
        name: name.to_string(),
        required,
        schema_type: ty,
        description: description.map(|d| d.to_string()),
        rest: rest.map(|r| r.to_string()),
    }
}

#[test]
fn schema_properties_show_required_ones_first() {
    let sorted = sort_properties(vec![
        prop("b", false, SchemaType::Unknown, None, None),
        prop("z", true, SchemaType::Unknown, None, None),
        prop("a", false, SchemaType::Unknown, None, None),
        prop("c", true, SchemaType::Unknown, None, None),
    ]);
    let names: Vec<(&str, bool)> = sorted.iter().map(|p| (p.name.as_str(), p.required)).collect();
    assert_eq!(names, vec![("c", true), ("z", true), ("a", false), ("b", false)]);
}

#[test]
fn tools_are_listed_with_their_schemas() {
    let tools = vec![ToolInfo {
        name: "echo".to_string(),
        description: Some("Echoes back\nthe message".to_string()),
        annotations: Some(Some("Echo".to_string())),
        input: vec![
            prop("verbose", false, SchemaType::Name("boolean".to_string()), None, None),
            prop(
                "message",
                true,
                SchemaType::Union(vec!["string".to_string(), "null".to_string()]),
                Some("The message"),
                Some("{\n  \"minLength\": 1\n}"),
            ),
        ],
        output: vec![],
    }];
    let mut out = Vec::new();
    list_tools_result(&mut out, tools);
    assert_eq!(
        out,
        vec![
            e(0, Line::Heading(1, "echo".to_string())),
            e(1, text("Echoes back")),
            e(1, text("the message")),
            e(2, Line::Heading(2, "Annotations".to_string())),
            e(3, kv("title", "Echo")),
            e(2, Line::Heading(2, "Input".to_string())),
            e(3, kv("message", "string | null")),
            e(4, Line::Note("[required]".to_string())),
            e(4, text("The message")),
            e(4, text("{")),
            e(4, text("  \"minLength\": 1")),
            e(4, text("}")),
            e(3, kv("verbose", "boolean")),
            e(0, text("")),
        ]
    );
    let mut out = Vec::new();
    list_tools_result(&mut out, vec![]);
    assert_eq!(out, vec![e(0, text("No tools."))]);
}

#[test]
fn tool_results_show_each_block() {
    let r = ToolResult {
        content: vec![
            ContentBlock::Text {
                text: "line 1\nline 2".to_string(),
                annotations: Some(ContentAnnotations {
                    audience: Some(vec![Role::User, Role::Assistant]),
                    priority: Some("0.5".to_string()),
                    last_modified: None,
                }),
            },
            ContentBlock::EmbeddedResource {
                resource: ResourceContents::Blob {
                    uri: "file:///x".to_string(),
                    mime_type: None,
                    blob: "AAAA".to_string(),
                },
                annotations: None,
            },
        ],
        is_error: Some(false),
        structured: Some("{\n  \"ok\": true\n}".to_string()),
    };
    let mut out = Vec::new();
    call_tool_result(&mut out, &r);
    assert_eq!(
        out,
        vec![
            e(0, Line::Heading(1, "Tool Result".to_string())),
            e(1, Line::TraceSuccess("Tool executed successfully".to_string())),
            e(2, Line::Heading(2, "Content".to_string())),
            e(3, Line::Heading(3, "Content 1".to_string())),
            e(4, kv("Type", "Text")),
            e(5, text("line 1")),
            e(5, text("line 2")),
            e(5, Line::Heading(3, "Annotations".to_string())),
            e(6, kv("Audience", "User, Assistant")),
            e(6, kv("Priority", "0.5")),
            e(3, Line::Heading(3, "Content 2".to_string())),
            e(4, kv("Type", "Embedded Resource")),
            e(5, kv("Resource Type", "Blob")),
            e(5, kv("URI", "file:///x")),
            e(5, kv("Data Length", "4 bytes")),
            e(2, Line::Heading(2, "Structured Content".to_string())),
            e(3, text("{")),
            e(3, text("  \"ok\": true")),
            e(3, text("}")),
        ]
    );
    let failed = ToolResult {
        content: vec![ContentBlock::Image {
            mime_type: "image/png".to_string(),
            data: "QUJD".to_string(),
            annotations: None,
        }],
        is_error: Some(true),
        structured: None,
    };
    let mut out = Vec::new();
    call_tool_result(&mut out, &failed);
    assert_eq!(
        out,
        vec![
            e(0, Line::Heading(1, "Tool Result".to_string())),
            e(1, Line::TraceError("Tool execution resulted in an error".to_string())),
            e(2, Line::Heading(2, "Content".to_string())),
            e(3, kv("Type", "Image")),
            e(4, kv("MIME Type", "image/png")),
            e(4, kv("Data Length", "4 bytes")),
        ]
    );
}

#[test]
fn resources_prompts_and_templates_are_listed() {
    let resources = vec![ResourceInfo {
        uri: "log://testserver/current".to_string(),
        description: Some("Current test server log".to_string()),
        mime_type: Some("text/plain".to_string()),
        size: Some(512),
        annotations: None,
    }];
    let mut out = Vec::new();
    list_resources_result(&mut out, &resources, &Some("next".to_string()));
    assert_eq!(
        out,
        vec![
            e(0, Line::Heading(1, "log://testserver/current".to_string())),
            e(0, text("")),
            e(1, text("Current test server log")),
            e(1, text("")),
            e(1, kv("MIME type", "text/plain")),
            e(1, kv("Size", "512 bytes")),
            e(0, text("")),
            e(0, Line::Note("More resources available. Next cursor: next".to_string())),
        ]
    );

    let prompts = vec![PromptInfo {
        name: "greeting".to_string(),
        description: None,
        arguments: Some(vec![PromptArgInfo {
            name: "name".to_string(),
            description: Some("The name to greet".to_string()),
            required: Some(true),
        }]),
    }];
    let mut out = Vec::new();
    list_prompts_result(&mut out, &prompts, &None);
    assert_eq!(
        out,
        vec![
            e(0, Line::Heading(1, "greeting".to_string())),
            e(0, text("")),
            e(2, Line::Heading(2, "Arguments".to_string())),
            e(3, kv("name", "")),
            e(4, Line::Note("[required]".to_string())),
            e(4, text("The name to greet")),
            e(0, text("")),
        ]
    );

    let templates = vec![TemplateInfo {
        name: "dated-log".to_string(),
        uri_template: "log://testserver/{date}/entries".to_string(),
        title: Some("Daily Log Entries".to_string()),
        description: None,
        mime_type: None,
        annotations: Some(ContentAnnotations {
            audience: Some(vec![Role::Assistant]),
            priority: Some("0.8".to_string()),
            last_modified: None,
        }),
    }];
    let mut out = Vec::new();
    list_resource_templates_result(&mut out, &templates, &None);
    assert_eq!(
        out,
        vec![
            e(0, Line::Heading(1, "dated-log".to_string())),
            e(1, kv("URI Template", "log://testserver/{date}/entries")),
            e(1, kv("Title", "Daily Log Entries")),
            e(1, Line::Heading(2, "Annotations".to_string())),
            e(2, kv("audience", "Assistant")),
            e(2, kv("priority", "0.8")),
            e(0, text("")),
        ]
    );
    let mut out = Vec::new();
    list_resource_templates_result(&mut out, &vec![], &None);
    assert_eq!(out, vec![e(0, text("No resource templates."))]);
}

#[test]
fn prompt_arguments_stay_text() {
    let m = ArgumentParser::parse_string_args(vec!["n=42".to_string(), "n=007".to_string()])
        .unwrap()
        .unwrap();
    assert_eq!(m.len(), 1);
    assert_eq!(m.get("n"), Some(&ArgValue::String("007".to_string())));
    assert!(ArgumentParser::parse_string_args(vec![]).unwrap().is_none());
    assert!(ArgumentParser::parse_string_args(vec!["bad".to_string()]).is_err());
}

#[test]
fn test_list_tools_result_json_output() {
    let tools = vec![ToolInfo {
        name: "test_tool".to_string(),
        description: Some("A test tool".to_string()),
        annotations: None,
        input: vec![prop(
            "param1",
            true,
            SchemaType::Name("string".to_string()),
            Some("First parameter"),
            None,
        )],
        output: vec![],
    }];
    let mut out = Vec::new();
    list_tools_result(&mut out, tools);
    assert_eq!(
        out,
        vec![
            e(0, Line::Heading(1, "test_tool".to_string())),
            e(1, text("A test tool")),
            e(2, Line::Heading(2, "Input".to_string())),
            e(3, kv("param1", "string")),
            e(4, Line::Note("[required]".to_string())),
            e(4, text("First parameter")),
            e(0, text("")),
        ]
    );
}

#[test]
fn test_list_tools_result_empty_tools() {
    let mut out = Vec::new();
    list_tools_result(&mut out, vec![]);
    assert_eq!(out, vec![e(0, text("No tools."))]);
}
