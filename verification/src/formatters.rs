use vstd::prelude::*;

use crate::display::{
    entries_view, ev, lines_spec, push_entry, push_heading, push_kv, push_success, push_text,
    split_lines, Entry, EntryView, Line, LineView,
};
use crate::output::utf8_len;
use crate::text::{
    i64_to_decimal, int_to_decimal, join_strings, join_with, nat_to_decimal, push_str,
    string_from_str, u64_to_decimal,
};

verus! {

// ---------------------------------------------------------------------------
// Metadata shown for resources and content
// ---------------------------------------------------------------------------

/// The entries that show `value` after `label`, where there is a value.
pub open spec fn optional_spec(label: Seq<char>, value: Option<Seq<char>>) -> Seq<EntryView> {
    match value {
        Some(v) => seq![ev(0, LineView::Text(label + v))],
        None => Seq::empty(),
    }
}

/// The entries that show binary content.
pub open spec fn binary_spec(data: Seq<char>, size: nat) -> Seq<EntryView> {
    seq![
        ev(0, LineView::Text("Binary content ("@ + nat_to_decimal(size) + " bytes)"@)),
        ev(0, LineView::Text("Content (base64):"@)),
        ev(0, LineView::Text(data)),
    ]
}

/// The entries that show text content.
pub open spec fn text_content_spec(text: Seq<char>) -> Seq<EntryView> {
    seq![ev(0, LineView::Text("Content:"@)), ev(0, LineView::Text(text))]
}

/// The mathematical value of an optional string.
pub open spec fn opt_view(o: Option<String>) -> Option<Seq<char>> {
    match o {
        Some(s) => Some(s@),
        None => None,
    }
}

/// Helper for the metadata sections shared by several displays.
pub struct MetadataDisplay;

impl MetadataDisplay {
    fn display_labelled(out: &mut Vec<Entry>, label: &str, value: &Option<String>)
        ensures
            entries_view(final(out)@) == entries_view(old(out)@) + optional_spec(
                label@,
                opt_view(*value),
            ),
    {
        let ghost before = entries_view(out@);
        match value {
            Some(v) => {
                let mut t = string_from_str(label);
                push_str(&mut t, v.as_str());
                push_entry(out, 0, Line::Text(t));
            },
            None => {},
        }
        assert(entries_view(out@) =~= before + optional_spec(label@, opt_view(*value)));
    }

    /// Shows a URI.
    pub fn display_uri(out: &mut Vec<Entry>, uri: &str)
        ensures
            entries_view(final(out)@) == entries_view(old(out)@).push(
                ev(0, LineView::Text("URI: "@ + uri@)),
            ),
    {
        let mut t = string_from_str("URI: ");
        push_str(&mut t, uri);
        push_entry(out, 0, Line::Text(t));
    }

    /// Shows a MIME type, where there is one.
    pub fn display_mime_type(out: &mut Vec<Entry>, mime_type: &Option<String>)
        ensures
            entries_view(final(out)@) == entries_view(old(out)@) + optional_spec(
                "MIME Type: "@,
                opt_view(*mime_type),
            ),
    {
        MetadataDisplay::display_labelled(out, "MIME Type: ", mime_type);
    }

    /// Shows a description, where there is one.
    pub fn display_description(out: &mut Vec<Entry>, description: &Option<String>)
        ensures
            entries_view(final(out)@) == entries_view(old(out)@) + optional_spec(
                "Description: "@,
                opt_view(*description),
            ),
    {
        MetadataDisplay::display_labelled(out, "Description: ", description);
    }

    /// Shows a title, where there is one.
    pub fn display_title(out: &mut Vec<Entry>, title: &Option<String>)
        ensures
            entries_view(final(out)@) == entries_view(old(out)@) + optional_spec(
                "Title: "@,
                opt_view(*title),
            ),
    {
        MetadataDisplay::display_labelled(out, "Title: ", title);
    }

    /// Shows base64 content and its size in bytes.
    pub fn display_binary_content(out: &mut Vec<Entry>, data: &str, size: usize)
        ensures
            entries_view(final(out)@) == entries_view(old(out)@) + binary_spec(data@, size as nat),
    {
        let ghost before = entries_view(out@);
        let mut t = string_from_str("Binary content (");
        let n = u64_to_decimal(size as u64);
        push_str(&mut t, n.as_str());
        push_str(&mut t, " bytes)");
        push_entry(out, 0, Line::Text(t));
        push_text(out, 0, "Content (base64):");
        push_text(out, 0, data);
        assert(entries_view(out@) =~= before + binary_spec(data@, size as nat));
    }

    /// Shows text content.
    pub fn display_text_content(out: &mut Vec<Entry>, text: &str)
        ensures
            entries_view(final(out)@) == entries_view(old(out)@) + text_content_spec(text@),
    {
        let ghost before = entries_view(out@);
        push_text(out, 0, "Content:");
        push_text(out, 0, text);
        assert(entries_view(out@) =~= before + text_content_spec(text@));
    }
}

/// Shows a value by its debug form; the form itself is written by the
/// caller, since it depends on the value's type.
pub struct TextFormatter;

impl TextFormatter {
    /// The entry that shows a value by its already written debug form.
    pub fn format_text(&self, out: &mut Vec<Entry>, debug_form: &str)
        ensures
            entries_view(final(out)@) == entries_view(old(out)@).push(
                ev(0, LineView::Text(debug_form@)),
            ),
    {
        push_text(out, 0, debug_form);
    }
}

// ---------------------------------------------------------------------------
// Completions
// ---------------------------------------------------------------------------

/// Completion values for an argument, and what the server says of the rest.
pub struct CompletionInfo {
    /// The suggested values.
    pub values: Vec<String>,
    /// How many matches there are, if known.
    pub total: Option<i64>,
    /// Whether more matches exist than were returned.
    pub has_more: Option<bool>,
}

/// The entries for each value, numbered from `from + 1`.
pub open spec fn numbered_spec(values: Seq<Seq<char>>, from: nat) -> Seq<EntryView>
    decreases values.len(),
{
    if values.len() == 0 {
        Seq::empty()
    } else {
        numbered_spec(values.drop_last(), from) + seq![
            ev(
                0,
                LineView::Text(
                    "  "@ + nat_to_decimal(from + values.len()) + ". "@ + values.last(),
                ),
            ),
        ]
    }
}

/// What a completion result shows.
pub open spec fn complete_spec(values: Seq<Seq<char>>, total: Option<i64>, has_more: Option<bool>) -> Seq<EntryView> {
    seq![ev(0, LineView::Text("Completions ("@ + nat_to_decimal(values.len()) + " item(s)):"@))]
        + numbered_spec(values, 0) + (if has_more == Some(true) {
        seq![ev(0, LineView::Text("  ... (more completions available)"@))]
    } else {
        Seq::empty()
    }) + match total {
        Some(t) => seq![ev(0, LineView::Text("Total completions: "@ + int_to_decimal(t as int)))],
        None => Seq::empty(),
    }
}

/// Shows completion results.
pub struct CompleteFormatter;

impl CompleteFormatter {
    /// The entries that show a completion result.
    pub fn format_text(&self, out: &mut Vec<Entry>, result: &CompletionInfo)
        ensures
            entries_view(final(out)@) == entries_view(old(out)@) + complete_spec(
                result.values.deep_view(),
                result.total,
                result.has_more,
            ),
    {
        let ghost before = entries_view(out@);
        let ghost vals = result.values.deep_view();
        let mut head = string_from_str("Completions (");
        let n = u64_to_decimal(result.values.len() as u64);
        push_str(&mut head, n.as_str());
        push_str(&mut head, " item(s)):");
        push_entry(out, 0, Line::Text(head));
        let mut i: usize = 0;
        while i < result.values.len()
            invariant
                i <= result.values@.len(),
                vals == result.values.deep_view(),
                entries_view(out@) == before + seq![
                    ev(
                        0,
                        LineView::Text(
                            "Completions ("@ + nat_to_decimal(vals.len()) + " item(s)):"@,
                        ),
                    ),
                ] + numbered_spec(vals.subrange(0, i as int), 0),
            decreases result.values@.len() - i,
        {
            let mut t = string_from_str("  ");
            let k = u64_to_decimal((i + 1) as u64);
            push_str(&mut t, k.as_str());
            push_str(&mut t, ". ");
            push_str(&mut t, result.values[i].as_str());
            push_entry(out, 0, Line::Text(t));
            proof {
                let next = vals.subrange(0, i + 1);
                assert(next.drop_last() =~= vals.subrange(0, i as int));
                assert(next.last() == result.values@[i as int]@);
            }
            i = i + 1;
        }
        assert(vals.subrange(0, vals.len() as int) =~= vals);
        match result.has_more {
            Some(true) => push_text(out, 0, "  ... (more completions available)"),
            _ => {},
        }
        match result.total {
            Some(t) => {
                let mut s = string_from_str("Total completions: ");
                let d = i64_to_decimal(t);
                push_str(&mut s, d.as_str());
                push_entry(out, 0, Line::Text(s));
            },
            None => {},
        }
        assert(entries_view(out@) =~= before + complete_spec(vals, result.total, result.has_more));
    }
}


// ---------------------------------------------------------------------------
// Resource contents and prompt messages
// ---------------------------------------------------------------------------

/// The number of bytes of a text in UTF-8, as `str::len` counts them.
pub open spec fn byte_len(s: Seq<char>) -> nat {
    (utf8_len(s) as usize) as nat
}

/// The contents of a resource.
pub enum ResourceContents {
    /// Text contents.
    Text { uri: String, mime_type: Option<String>, text: String },
    /// Binary contents, base64-encoded.
    Blob { uri: String, mime_type: Option<String>, blob: String },
}

/// The entries that show the contents of a resource.
pub open spec fn resource_contents_spec(c: ResourceContents) -> Seq<EntryView> {
    match c {
        ResourceContents::Text { uri, mime_type, text } => seq![
            ev(0, LineView::Text("URI: "@ + uri@)),
        ] + optional_spec("MIME Type: "@, opt_view(mime_type)) + text_content_spec(text@),
        ResourceContents::Blob { uri, mime_type, blob } => seq![
            ev(0, LineView::Text("URI: "@ + uri@)),
        ] + optional_spec("MIME Type: "@, opt_view(mime_type)) + binary_spec(blob@, byte_len(blob@)),
    }
}

/// Shows the contents of a resource.
pub fn display_resource_contents(out: &mut Vec<Entry>, c: &ResourceContents)
    ensures
        entries_view(final(out)@) == entries_view(old(out)@) + resource_contents_spec(*c),
{
    let ghost before = entries_view(out@);
    match c {
        ResourceContents::Text { uri, mime_type, text } => {
            MetadataDisplay::display_uri(out, uri.as_str());
            MetadataDisplay::display_mime_type(out, mime_type);
            MetadataDisplay::display_text_content(out, text.as_str());
        },
        ResourceContents::Blob { uri, mime_type, blob } => {
            MetadataDisplay::display_uri(out, uri.as_str());
            MetadataDisplay::display_mime_type(out, mime_type);
            let n = blob.as_str().len();
            MetadataDisplay::display_binary_content(out, blob.as_str(), n);
        },
    }
    assert(entries_view(out@) =~= before + resource_contents_spec(*c));
}

/// The header line of a numbered section.
pub open spec fn section_spec(label: Seq<char>, i: nat) -> EntryView {
    ev(0, LineView::Text("\n--- "@ + label + " "@ + nat_to_decimal(i + 1) + " ---"@))
}

fn push_section(out: &mut Vec<Entry>, label: &str, i: usize)
    requires
        i < usize::MAX,
    ensures
        entries_view(final(out)@) == entries_view(old(out)@).push(section_spec(label@, i as nat)),
{
    let mut t = string_from_str("\n--- ");
    push_str(&mut t, label);
    push_str(&mut t, " ");
    let k = u64_to_decimal((i + 1) as u64);
    push_str(&mut t, k.as_str());
    push_str(&mut t, " ---");
    push_entry(out, 0, Line::Text(t));
}

/// The entries that show each of a list of resource contents.
pub open spec fn contents_list_spec(cs: Seq<ResourceContents>) -> Seq<EntryView>
    decreases cs.len(),
{
    if cs.len() == 0 {
        Seq::empty()
    } else {
        contents_list_spec(cs.drop_last()) + seq![section_spec("Content"@, (cs.len() - 1) as nat)]
            + resource_contents_spec(cs.last())
    }
}

/// What reading a resource shows.
pub open spec fn read_resource_spec(cs: Seq<ResourceContents>) -> Seq<EntryView> {
    seq![ev(0, LineView::Text("Resource contents ("@ + nat_to_decimal(cs.len()) + " item(s)):"@))]
        + contents_list_spec(cs)
}

/// Shows the result of reading a resource.
pub struct ReadResourceFormatter;

impl ReadResourceFormatter {
    /// The entries that show the contents of a read resource.
    pub fn format_text(&self, out: &mut Vec<Entry>, contents: &Vec<ResourceContents>)
        ensures
            entries_view(final(out)@) == entries_view(old(out)@) + read_resource_spec(contents@),
    {
        let ghost before = entries_view(out@);
        let mut head = string_from_str("Resource contents (");
        let n = u64_to_decimal(contents.len() as u64);
        push_str(&mut head, n.as_str());
        push_str(&mut head, " item(s)):");
        push_entry(out, 0, Line::Text(head));
        let mut i: usize = 0;
        while i < contents.len()
            invariant
                i <= contents@.len(),
                entries_view(out@) == before + seq![
                    ev(
                        0,
                        LineView::Text(
                            "Resource contents ("@ + nat_to_decimal(contents@.len())
                                + " item(s)):"@,
                        ),
                    ),
                ] + contents_list_spec(contents@.subrange(0, i as int)),
            decreases contents@.len() - i,
        {
            push_section(out, "Content", i);
            display_resource_contents(out, &contents[i]);
            proof {
                let next = contents@.subrange(0, i + 1);
                assert(next.drop_last() =~= contents@.subrange(0, i as int));
            }
            i = i + 1;
        }
        assert(contents@.subrange(0, contents@.len() as int) =~= contents@);
        assert(entries_view(out@) =~= before + read_resource_spec(contents@));
    }
}

/// Who a prompt message is from.
#[derive(Debug, Clone, Copy, PartialEq, Eq, Structural)]
pub enum Role {
    /// The human user.
    User,
    /// The AI assistant.
    Assistant,
}

/// How a role is shown.
pub open spec fn role_name(r: Role) -> Seq<char> {
    match r {
        Role::User => "User"@,
        Role::Assistant => "Assistant"@,
    }
}

/// How content is meant to be used, as its annotations say.
pub struct ContentAnnotations {
    /// Who the content is for.
    pub audience: Option<Vec<Role>>,
    /// Its importance, as the number is written.
    pub priority: Option<String>,
    /// When it was last changed.
    pub last_modified: Option<String>,
}

/// A block of content in a prompt message or a tool result.
pub enum ContentBlock {
    /// Text.
    Text { text: String, annotations: Option<ContentAnnotations> },
    /// A base64-encoded image.
    Image { mime_type: String, data: String, annotations: Option<ContentAnnotations> },
    /// Base64-encoded audio.
    Audio { mime_type: String, data: String, annotations: Option<ContentAnnotations> },
    /// Resource contents embedded in the message.
    EmbeddedResource { resource: ResourceContents, annotations: Option<ContentAnnotations> },
    /// A link to a resource.
    ResourceLink {
        uri: String,
        name: String,
        title: Option<String>,
        description: Option<String>,
        mime_type: Option<String>,
        size: Option<i64>,
        annotations: Option<ContentAnnotations>,
    },
}

/// The entries that show a block of content.
pub open spec fn content_spec(c: ContentBlock) -> Seq<EntryView> {
    match c {
        ContentBlock::Text { text, .. } => text_content_spec(text@),
        ContentBlock::Image { mime_type, data, .. } => seq![
            ev(0, LineView::Text("Image content (MIME: "@ + mime_type@ + ")"@)),
        ] + binary_spec(data@, byte_len(data@)),
        ContentBlock::Audio { mime_type, data, .. } => seq![
            ev(0, LineView::Text("Audio content (MIME: "@ + mime_type@ + ")"@)),
        ] + binary_spec(data@, byte_len(data@)),
        ContentBlock::EmbeddedResource { resource, .. } => seq![
            ev(0, LineView::Text("Embedded resource:"@)),
        ] + resource_contents_spec(resource),
        ContentBlock::ResourceLink { uri, name, title, description, mime_type, .. } => seq![
            ev(0, LineView::Text("Resource link:"@)),
            ev(0, LineView::Text("URI: "@ + uri@)),
            ev(0, LineView::Text("Name: "@ + name@)),
        ] + optional_spec("Title: "@, opt_view(title)) + optional_spec(
            "Description: "@,
            opt_view(description),
        ) + optional_spec("MIME Type: "@, opt_view(mime_type)),
    }
}

/// Shows a block of content.
pub fn display_content_block(out: &mut Vec<Entry>, c: &ContentBlock)
    ensures
        entries_view(final(out)@) == entries_view(old(out)@) + content_spec(*c),
{
    let ghost before = entries_view(out@);
    match c {
        ContentBlock::Text { text, .. } => {
            MetadataDisplay::display_text_content(out, text.as_str());
        },
        ContentBlock::Image { mime_type, data, .. } => {
            let mut h = string_from_str("Image content (MIME: ");
            push_str(&mut h, mime_type.as_str());
            push_str(&mut h, ")");
            push_entry(out, 0, Line::Text(h));
            let n = data.as_str().len();
            MetadataDisplay::display_binary_content(out, data.as_str(), n);
        },
        ContentBlock::Audio { mime_type, data, .. } => {
            let mut h = string_from_str("Audio content (MIME: ");
            push_str(&mut h, mime_type.as_str());
            push_str(&mut h, ")");
            push_entry(out, 0, Line::Text(h));
            let n = data.as_str().len();
            MetadataDisplay::display_binary_content(out, data.as_str(), n);
        },
        ContentBlock::EmbeddedResource { resource, .. } => {
            push_text(out, 0, "Embedded resource:");
            display_resource_contents(out, resource);
        },
        ContentBlock::ResourceLink { uri, name, title, description, mime_type, .. } => {
            push_text(out, 0, "Resource link:");
            MetadataDisplay::display_uri(out, uri.as_str());
            let mut t = string_from_str("Name: ");
            push_str(&mut t, name.as_str());
            push_entry(out, 0, Line::Text(t));
            MetadataDisplay::display_title(out, title);
            MetadataDisplay::display_description(out, description);
            MetadataDisplay::display_mime_type(out, mime_type);
        },
    }
    assert(entries_view(out@) =~= before + content_spec(*c));
}

/// A message of a prompt.
pub struct PromptMessage {
    /// Who it is from.
    pub role: Role,
    /// What it holds.
    pub content: ContentBlock,
}

/// A prompt, as a server returns it.
pub struct PromptResult {
    /// The prompt's description.
    pub description: Option<String>,
    /// The prompt's messages.
    pub messages: Vec<PromptMessage>,
}

/// The entries that show each of a list of prompt messages.
pub open spec fn messages_spec(ms: Seq<PromptMessage>) -> Seq<EntryView>
    decreases ms.len(),
{
    if ms.len() == 0 {
        Seq::empty()
    } else {
        messages_spec(ms.drop_last()) + seq![
            section_spec("Message"@, (ms.len() - 1) as nat),
            ev(0, LineView::Text("Role: "@ + role_name(ms.last().role))),
        ] + content_spec(ms.last().content)
    }
}

/// What a prompt shows.
pub open spec fn get_prompt_spec(r: PromptResult) -> Seq<EntryView> {
    seq![
        ev(
            0,
            LineView::Text("Prompt messages ("@ + nat_to_decimal(r.messages@.len()) + " item(s)):"@),
        ),
    ] + messages_spec(r.messages@) + optional_spec("Description: "@, opt_view(r.description))
}

/// Shows a prompt returned by a server.
pub struct GetPromptFormatter;

impl GetPromptFormatter {
    /// The entries that show a prompt.
    pub fn format_text(&self, out: &mut Vec<Entry>, result: &PromptResult)
        ensures
            entries_view(final(out)@) == entries_view(old(out)@) + get_prompt_spec(*result),
    {
        let ghost before = entries_view(out@);
        let ms = &result.messages;
        let mut head = string_from_str("Prompt messages (");
        let n = u64_to_decimal(ms.len() as u64);
        push_str(&mut head, n.as_str());
        push_str(&mut head, " item(s)):");
        push_entry(out, 0, Line::Text(head));
        let mut i: usize = 0;
        while i < ms.len()
            invariant
                i <= ms@.len(),
                ms@ == result.messages@,
                entries_view(out@) == before + seq![
                    ev(
                        0,
                        LineView::Text(
                            "Prompt messages ("@ + nat_to_decimal(ms@.len()) + " item(s)):"@,
                        ),
                    ),
                ] + messages_spec(ms@.subrange(0, i as int)),
            decreases ms@.len() - i,
        {
            push_section(out, "Message", i);
            let m = &ms[i];
            let mut r = string_from_str("Role: ");
            match m.role {
                Role::User => push_str(&mut r, "User"),
                Role::Assistant => push_str(&mut r, "Assistant"),
            }
            push_entry(out, 0, Line::Text(r));
            display_content_block(out, &m.content);
            proof {
                let next = ms@.subrange(0, i + 1);
                assert(next.drop_last() =~= ms@.subrange(0, i as int));
            }
            i = i + 1;
        }
        assert(ms@.subrange(0, ms@.len() as int) =~= ms@);
        MetadataDisplay::display_description(out, &result.description);
        assert(entries_view(out@) =~= before + get_prompt_spec(*result));
    }
}


// ---------------------------------------------------------------------------
// The result of the initial handshake
// ---------------------------------------------------------------------------

/// What a server said of itself when the connection was set up.
pub struct InitInfo {
    /// The server's name.
    pub name: String,
    /// The server's version.
    pub version: String,
    /// The server's display title.
    pub title: Option<String>,
    /// The MCP protocol version agreed on.
    pub protocol_version: String,
    /// Tool support, and whether the tool list may change.
    pub tools: Option<bool>,
    /// Resource support, whether the list may change, and whether
    /// subscriptions are supported.
    pub resources: Option<(bool, bool)>,
    /// Prompt support, and whether the prompt list may change.
    pub prompts: Option<bool>,
    /// Logging support.
    pub logging: bool,
    /// Completion support.
    pub completions: bool,
    /// Experimental capabilities, each with its value as pretty JSON.
    pub experimental: Option<Vec<(String, String)>>,
    /// The server's instructions.
    pub instructions: Option<String>,
}

/// A success entry at `indent`, shown only when `on`.
pub open spec fn flag_spec(indent: nat, on: bool, text: Seq<char>) -> Seq<EntryView> {
    if on {
        seq![ev(indent, LineView::Success(text))]
    } else {
        Seq::empty()
    }
}

/// The capabilities the server lacks, in the order they are checked.
pub open spec fn unsupported_spec(i: InitInfo) -> Seq<Seq<char>> {
    (if i.tools is None { seq!["tools"@] } else { Seq::empty() }) + (if i.resources is None {
        seq!["resources"@]
    } else {
        Seq::empty()
    }) + (if i.prompts is None { seq!["prompts"@] } else { Seq::empty() }) + (if !i.logging {
        seq!["logging"@]
    } else {
        Seq::empty()
    }) + (if !i.completions { seq!["completions"@] } else { Seq::empty() })
}

/// The entries for the experimental capabilities.
pub open spec fn experimental_spec(e: Option<Vec<(String, String)>>) -> Seq<EntryView> {
    match e {
        Some(v) => if v@.len() > 0 {
            seq![ev(2, LineView::Text(Seq::empty())), ev(2, LineView::Heading(3, "Experimental Features"@))]
                + v@.map_values(|p: (String, String)| ev(3, LineView::Kv(p.0@, p.1@)))
        } else {
            Seq::empty()
        },
        None => Seq::empty(),
    }
}

/// The entries for tool support.
pub open spec fn tools_spec(t: Option<bool>) -> Seq<EntryView> {
    match t {
        Some(lc) => seq![ev(2, LineView::Success("tools"@))] + flag_spec(3, lc, "- list changed"@),
        None => Seq::empty(),
    }
}

/// The entries for resource support.
pub open spec fn resources_spec(r: Option<(bool, bool)>) -> Seq<EntryView> {
    match r {
        Some((lc, sub)) => seq![ev(2, LineView::Success("resources"@))] + flag_spec(
            3,
            lc,
            "- list changed"@,
        ) + flag_spec(3, sub, "- subscribe"@),
        None => Seq::empty(),
    }
}

/// The entries for prompt support.
pub open spec fn prompts_spec(p: Option<bool>) -> Seq<EntryView> {
    match p {
        Some(lc) => seq![ev(2, LineView::Success("prompts"@))] + flag_spec(3, lc, "- list changed"@),
        None => Seq::empty(),
    }
}

/// The entry that lists the missing capabilities, where any is missing.
pub open spec fn unsupported_entries_spec(u: Seq<Seq<char>>) -> Seq<EntryView> {
    if u.len() > 0 {
        seq![ev(2, LineView::Text("unsupported: "@ + join_with(u, ", "@)))]
    } else {
        Seq::empty()
    }
}

/// The entries for the capabilities section.
pub open spec fn capabilities_spec(i: InitInfo) -> Seq<EntryView> {
    tools_spec(i.tools) + resources_spec(i.resources) + prompts_spec(i.prompts) + flag_spec(
        2,
        i.logging,
        "logging"@,
    ) + flag_spec(2, i.completions, "completions"@) + unsupported_entries_spec(unsupported_spec(i))
        + experimental_spec(i.experimental)
}

/// The entries for the instructions.
pub open spec fn instructions_spec(s: Option<String>) -> Seq<EntryView> {
    match s {
        Some(t) => seq![ev(1, LineView::Heading(2, "Instructions"@))] + lines_spec(t@).map_values(
            |l: Seq<char>| ev(2, LineView::Text(l)),
        ),
        None => Seq::empty(),
    }
}

/// What the result of the initial handshake shows as text.
pub open spec fn init_result_spec(i: InitInfo) -> Seq<EntryView> {
    seq![
        ev(0, LineView::Heading(1, i.name@ + " ("@ + i.version@ + ")"@)),
        ev(1, LineView::Kv("MCP Protocol Version"@, i.protocol_version@)),
    ] + match i.title {
        Some(t) => seq![ev(1, LineView::Kv("Title"@, t@))],
        None => Seq::empty(),
    } + seq![ev(1, LineView::Heading(2, "Capabilities"@))] + capabilities_spec(i)
        + instructions_spec(i.instructions) + seq![ev(0, LineView::Text(Seq::empty()))]
}

fn push_flag(out: &mut Vec<Entry>, indent: usize, on: bool, text: &str)
    ensures
        entries_view(final(out)@) == entries_view(old(out)@) + flag_spec(indent as nat, on, text@),
{
    let ghost before = entries_view(out@);
    if on {
        push_success(out, indent, text);
    }
    assert(entries_view(out@) =~= before + flag_spec(indent as nat, on, text@));
}

fn unsupported_names(i: &InitInfo) -> (r: Vec<String>)
    ensures
        r.deep_view() == unsupported_spec(*i),
{
    let mut r: Vec<String> = Vec::new();
    if i.tools.is_none() {
        r.push(string_from_str("tools"));
    }
    if i.resources.is_none() {
        r.push(string_from_str("resources"));
    }
    if i.prompts.is_none() {
        r.push(string_from_str("prompts"));
    }
    if !i.logging {
        r.push(string_from_str("logging"));
    }
    if !i.completions {
        r.push(string_from_str("completions"));
    }
    assert(r.deep_view() =~= unsupported_spec(*i));
    r
}

fn push_experimental(out: &mut Vec<Entry>, e: &Option<Vec<(String, String)>>)
    ensures
        entries_view(final(out)@) == entries_view(old(out)@) + experimental_spec(*e),
{
    let ghost before = entries_view(out@);
    match e {
        Some(v) => {
            if v.len() > 0 {
                push_text(out, 2, "");
                push_heading(out, 2, 3, "Experimental Features");
                let ghost head = entries_view(out@);
                let mut k: usize = 0;
                while k < v.len()
                    invariant
                        k <= v@.len(),
                        entries_view(out@) == head + v@.subrange(0, k as int).map_values(
                            |p: (String, String)| ev(3, LineView::Kv(p.0@, p.1@)),
                        ),
                    decreases v@.len() - k,
                {
                    push_kv(out, 3, v[k].0.as_str(), v[k].1.as_str());
                    assert(v@.subrange(0, k + 1).map_values(
                        |p: (String, String)| ev(3, LineView::Kv(p.0@, p.1@)),
                    ) =~= v@.subrange(0, k as int).map_values(
                        |p: (String, String)| ev(3, LineView::Kv(p.0@, p.1@)),
                    ).push(ev(3, LineView::Kv(v@[k as int].0@, v@[k as int].1@))));
                    k = k + 1;
                }
                assert(v@.subrange(0, v@.len() as int) =~= v@);
                assert(Seq::<char>::empty() =~= ""@) by {
                    reveal_strlit("");
                }
            }
        },
        None => {},
    }
    assert(entries_view(out@) =~= before + experimental_spec(*e));
}

fn push_instructions(out: &mut Vec<Entry>, s: &Option<String>)
    ensures
        entries_view(final(out)@) == entries_view(old(out)@) + instructions_spec(*s),
{
    let ghost before = entries_view(out@);
    match s {
        Some(t) => {
            push_heading(out, 1, 2, "Instructions");
            let ls = split_lines(t.as_str());
            let ghost head = entries_view(out@);
            let ghost lv = ls.deep_view();
            let mut k: usize = 0;
            while k < ls.len()
                invariant
                    k <= ls@.len(),
                    lv == ls.deep_view(),
                    entries_view(out@) == head + lv.subrange(0, k as int).map_values(
                        |l: Seq<char>| ev(2, LineView::Text(l)),
                    ),
                decreases ls@.len() - k,
            {
                push_text(out, 2, ls[k].as_str());
                assert(lv.subrange(0, k + 1).map_values(|l: Seq<char>| ev(2, LineView::Text(l)))
                    =~= lv.subrange(0, k as int).map_values(
                    |l: Seq<char>| ev(2, LineView::Text(l)),
                ).push(ev(2, LineView::Text(lv[k as int]))));
                k = k + 1;
            }
            assert(lv.subrange(0, ls@.len() as int) =~= lv);
        },
        None => {},
    }
    assert(entries_view(out@) =~= before + instructions_spec(*s));
}

fn push_tools(out: &mut Vec<Entry>, t: Option<bool>)
    ensures
        entries_view(final(out)@) == entries_view(old(out)@) + tools_spec(t),
{
    let ghost before = entries_view(out@);
    match t {
        Some(lc) => {
            push_success(out, 2, "tools");
            push_flag(out, 3, lc, "- list changed");
        },
        None => {},
    }
    assert(entries_view(out@) =~= before + tools_spec(t));
}

fn push_resources(out: &mut Vec<Entry>, r: Option<(bool, bool)>)
    ensures
        entries_view(final(out)@) == entries_view(old(out)@) + resources_spec(r),
{
    let ghost before = entries_view(out@);
    match r {
        Some((lc, sub)) => {
            push_success(out, 2, "resources");
            push_flag(out, 3, lc, "- list changed");
            push_flag(out, 3, sub, "- subscribe");
        },
        None => {},
    }
    assert(entries_view(out@) =~= before + resources_spec(r));
}

fn push_prompts(out: &mut Vec<Entry>, p: Option<bool>)
    ensures
        entries_view(final(out)@) == entries_view(old(out)@) + prompts_spec(p),
{
    let ghost before = entries_view(out@);
    match p {
        Some(lc) => {
            push_success(out, 2, "prompts");
            push_flag(out, 3, lc, "- list changed");
        },
        None => {},
    }
    assert(entries_view(out@) =~= before + prompts_spec(p));
}

fn push_unsupported(out: &mut Vec<Entry>, i: &InitInfo)
    ensures
        entries_view(final(out)@) == entries_view(old(out)@) + unsupported_entries_spec(
            unsupported_spec(*i),
        ),
{
    let ghost before = entries_view(out@);
    let u = unsupported_names(i);
    if u.len() > 0 {
        let mut t = string_from_str("unsupported: ");
        let j = join_strings(&u, ", ");
        push_str(&mut t, j.as_str());
        push_entry(out, 2, Line::Text(t));
    }
    assert(entries_view(out@) =~= before + unsupported_entries_spec(unsupported_spec(*i)));
}

fn push_capabilities(out: &mut Vec<Entry>, i: &InitInfo)
    ensures
        entries_view(final(out)@) == entries_view(old(out)@) + capabilities_spec(*i),
{
    let ghost before = entries_view(out@);
    push_tools(out, i.tools);
    push_resources(out, i.resources);
    push_prompts(out, i.prompts);
    push_flag(out, 2, i.logging, "logging");
    push_flag(out, 2, i.completions, "completions");
    push_unsupported(out, i);
    push_experimental(out, &i.experimental);
    assert(entries_view(out@) =~= before + capabilities_spec(*i));
}

/// Shows the result of the initial handshake as text: the server, the
/// protocol version, each capability with its options, those missing, and
/// the server's instructions line by line.
pub fn init_result(out: &mut Vec<Entry>, i: &InitInfo)
    ensures
        entries_view(final(out)@) == entries_view(old(out)@) + init_result_spec(*i),
{
    let ghost before = entries_view(out@);
    let mut title = string_from_str(i.name.as_str());
    push_str(&mut title, " (");
    push_str(&mut title, i.version.as_str());
    push_str(&mut title, ")");
    push_entry(out, 0, Line::Heading(1, title));
    push_kv(out, 1, "MCP Protocol Version", i.protocol_version.as_str());
    match &i.title {
        Some(t) => push_kv(out, 1, "Title", t.as_str()),
        None => {},
    }
    push_heading(out, 1, 2, "Capabilities");
    push_capabilities(out, i);
    push_instructions(out, &i.instructions);
    push_text(out, 0, "");
    assert(Seq::<char>::empty() =~= ""@) by {
        reveal_strlit("");
    }
    assert(entries_view(out@) =~= before + init_result_spec(*i));
}

} // verus!
