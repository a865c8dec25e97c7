use libmcptool::display::{split_lines, Entry, Line};
use libmcptool::formatters::{
    init_result, CompleteFormatter, CompletionInfo, ContentBlock, GetPromptFormatter, InitInfo,
    MetadataDisplay, PromptMessage, PromptResult, ReadResourceFormatter, ResourceContents, Role,
    TextFormatter,
};

fn text(s: &str) -> Line {
    Line::Text(s.to_string())
}

fn lines(out: Vec<Entry>) -> Vec<Line> {
    out.into_iter().map(|e| e.line).collect()
}

#[test]
fn lines_split_as_std_does() {
    for s in ["", "a", "a\n", "a\r\nb", "a\n\nb\n", "x\r", "\n", "a\rb\r\n"] {
        let expected: Vec<String> = s.lines().map(|l| l.to_string()).collect();
        assert_eq!(split_lines(s), expected, "for {:?}", s);
    }
}

#[test]
fn completions_are_numbered() {
    let info = CompletionInfo {
        values: vec!["alpha".to_string(), "beta".to_string()],
        total: Some(10),
        has_more: Some(true),
    };
    let mut out = Vec::new();
    CompleteFormatter.format_text(&mut out, &info);
    assert_eq!(
        lines(out),
        vec![
            text("Completions (2 item(s)):"),
            text("  1. alpha"),
            text("  2. beta"),
            text("  ... (more completions available)"),
            text("Total completions: 10"),
        ]
    );
    let none = CompletionInfo { values: vec![], total: None, has_more: Some(false) };
    let mut out = Vec::new();
    CompleteFormatter.format_text(&mut out, &none);
    assert_eq!(lines(out), vec![text("Completions (0 item(s)):")]);
}

#[test]
fn resource_contents_show_text_and_binary() {
    let contents = vec![
        ResourceContents::Text {
            uri: "file:///a.txt".to_string(),
            mime_type: Some("text/plain".to_string()),
            text: "hello".to_string(),
        },
        ResourceContents::Blob {
            uri: "file:///b.bin".to_string(),
            mime_type: None,
            blob: "AAEC".to_string(),
        },
    ];
    let mut out = Vec::new();
    ReadResourceFormatter.format_text(&mut out, &contents);
    assert_eq!(
        lines(out),
        vec![
            text("Resource contents (2 item(s)):"),
            text("\n--- Content 1 ---"),
            text("URI: file:///a.txt"),
            text("MIME Type: text/plain"),
            text("Content:"),
            text("hello"),
            text("\n--- Content 2 ---"),
            text("URI: file:///b.bin"),
            text("Binary content (4 bytes)"),
            text("Content (base64):"),
            text("AAEC"),
        ]
    );
}

#[test]
fn prompt_messages_show_role_and_content() {
    let result = PromptResult {
        description: Some("A prompt".to_string()),
        messages: vec![
            PromptMessage {
                role: Role::User,
                content: ContentBlock::Text { text: "Hi".to_string(), annotations: None },
            },
            PromptMessage {
                role: Role::Assistant,
                content: ContentBlock::ResourceLink {
                    uri: "res://x".to_string(),
                    name: "x".to_string(),
                    title: Some("X".to_string()),
                    description: None,
                    mime_type: Some("text/plain".to_string()),
                    size: Some(3),
                    annotations: None,
                },
            },
            PromptMessage {
                role: Role::User,
                content: ContentBlock::Image {
                    mime_type: "image/png".to_string(),
                    data: "ñ".to_string(),
                    annotations: None,
                },
            },
        ],
    };
    let mut out = Vec::new();
    GetPromptFormatter.format_text(&mut out, &result);
    assert_eq!(
        lines(out),
        vec![
            text("Prompt messages (3 item(s)):"),
            text("\n--- Message 1 ---"),
            text("Role: User"),
            text("Content:"),
            text("Hi"),
            text("\n--- Message 2 ---"),
            text("Role: Assistant"),
            text("Resource link:"),
            text("URI: res://x"),
            text("Name: x"),
            text("Title: X"),
            text("MIME Type: text/plain"),
            text("\n--- Message 3 ---"),
            text("Role: User"),
            text("Image content (MIME: image/png)"),
            // The size counts bytes of UTF-8, as `str::len` does.
            text("Binary content (2 bytes)"),
            text("Content (base64):"),
            text("ñ"),
            text("Description: A prompt"),
        ]
    );
}

#[test]
fn metadata_helpers_show_only_what_is_there() {
    let mut out = Vec::new();
    MetadataDisplay::display_uri(&mut out, "u");
    MetadataDisplay::display_title(&mut out, &None);
    MetadataDisplay::display_description(&mut out, &Some("d".to_string()));
    MetadataDisplay::display_binary_content(&mut out, "QQ==", 4);
    MetadataDisplay::display_text_content(&mut out, "t");
    TextFormatter.format_text(&mut out, "Foo { a: 1 }");
    assert_eq!(
        lines(out),
        vec![
            text("URI: u"),
            text("Description: d"),
            text("Binary content (4 bytes)"),
            text("Content (base64):"),
            text("QQ=="),
            text("Content:"),
            text("t"),
            text("Foo { a: 1 }"),
        ]
    );
}

fn success(indent: usize, s: &str) -> Entry {
    Entry { indent, line: Line::Success(s.to_string()) }
}

#[test]
fn init_result_shows_capabilities_and_instructions() {
    let info = InitInfo {
        name: "Test Server".to_string(),
        version: "1.2.3".to_string(),
        title: Some("Test MCP Server".to_string()),
        protocol_version: "2025-06-18".to_string(),
        tools: Some(true),
        resources: None,
        prompts: Some(false),
        logging: false,
        completions: true,
        experimental: Some(vec![("custom_feature".to_string(), "{\n  \"enabled\": true\n}".to_string())]),
        instructions: Some("Test instructions\nWith multiple lines".to_string()),
    };
    let mut out = Vec::new();
    init_result(&mut out, &info);
    assert_eq!(
        out,
        vec![
            Entry { indent: 0, line: Line::Heading(1, "Test Server (1.2.3)".to_string()) },
            Entry {
                indent: 1,
                line: Line::Kv("MCP Protocol Version".to_string(), "2025-06-18".to_string()),
            },
            Entry { indent: 1, line: Line::Kv("Title".to_string(), "Test MCP Server".to_string()) },
            Entry { indent: 1, line: Line::Heading(2, "Capabilities".to_string()) },
            success(2, "tools"),
            success(3, "- list changed"),
            success(2, "prompts"),
            success(2, "completions"),
            Entry { indent: 2, line: text("unsupported: resources, logging") },
            Entry { indent: 2, line: text("") },
            Entry { indent: 2, line: Line::Heading(3, "Experimental Features".to_string()) },
            Entry {
                indent: 3,
                line: Line::Kv("custom_feature".to_string(), "{\n  \"enabled\": true\n}".to_string()),
            },
            Entry { indent: 1, line: Line::Heading(2, "Instructions".to_string()) },
            Entry { indent: 2, line: text("Test instructions") },
            Entry { indent: 2, line: text("With multiple lines") },
            Entry { indent: 0, line: text("") },
        ]
    );
}

#[test]
fn init_result_of_a_minimal_server() {
    let info = InitInfo {
        name: "Minimal".to_string(),
        version: "0.1.0".to_string(),
        title: None,
        protocol_version: "2025-06-18".to_string(),
        tools: None,
        resources: Some((false, true)),
        prompts: None,
        logging: true,
        completions: false,
        experimental: Some(vec![]),
        instructions: None,
    };
    let mut out = Vec::new();
    init_result(&mut out, &info);
    let shown: Vec<Line> = lines(out);
    assert_eq!(
        shown,
        vec![
            Line::Heading(1, "Minimal (0.1.0)".to_string()),
            Line::Kv("MCP Protocol Version".to_string(), "2025-06-18".to_string()),
            Line::Heading(2, "Capabilities".to_string()),
            Line::Success("resources".to_string()),
            Line::Success("- subscribe".to_string()),
            Line::Success("logging".to_string()),
            text("unsupported: tools, prompts, completions"),
            text(""),
        ]
    );
}
