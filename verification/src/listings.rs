use vstd::prelude::*;

use crate::display::{
    entries_view, ev, lines_spec, push_entry, push_heading, push_kv, push_text, split_lines, Entry,
    EntryView, Line, LineView,
};
use crate::formatters::{byte_len, role_name, ContentAnnotations, ContentBlock, ResourceContents, Role};
use crate::text::{
    lemma_text_lt_irreflexive, lemma_text_lt_total, lemma_text_lt_transitive, text_less, text_lt,
    i64_to_decimal, int_to_decimal, join_strings, join_with, nat_to_decimal, push_str,
    string_from_str, u64_to_decimal,
};

verus! {

// ---------------------------------------------------------------------------
// Shared pieces
// ---------------------------------------------------------------------------

/// Each line of a text as a plain entry at `d`.
pub open spec fn lines_at(d: nat, s: Seq<char>) -> Seq<EntryView> {
    lines_spec(s).map_values(|l: Seq<char>| ev(d, LineView::Text(l)))
}

/// Shows each line of a text at indentation `d`.
pub fn push_lines(out: &mut Vec<Entry>, d: usize, s: &str)
    ensures
        entries_view(final(out)@) == entries_view(old(out)@) + lines_at(d as nat, s@),
{
    let ls = split_lines(s);
    let ghost lv = ls.deep_view();
    let ghost head = entries_view(out@);
    let mut k: usize = 0;
    while k < ls.len()
        invariant
            k <= ls@.len(),
            lv == ls.deep_view(),
            lv == lines_spec(s@),
            entries_view(out@) == head + lv.subrange(0, k as int).map_values(
                |l: Seq<char>| ev(d as nat, LineView::Text(l)),
            ),
        decreases ls@.len() - k,
    {
        push_text(out, d, ls[k].as_str());
        assert(lv.subrange(0, k + 1).map_values(|l: Seq<char>| ev(d as nat, LineView::Text(l)))
            =~= lv.subrange(0, k as int).map_values(
            |l: Seq<char>| ev(d as nat, LineView::Text(l)),
        ).push(ev(d as nat, LineView::Text(lv[k as int]))));
        k = k + 1;
    }
    assert(lv.subrange(0, ls@.len() as int) =~= lv);
}

/// A key-value entry at `d`, shown only where there is a value.
pub open spec fn kv_opt_at(d: nat, key: Seq<char>, v: Option<String>) -> Seq<EntryView> {
    match v {
        Some(s) => seq![ev(d, LineView::Kv(key, s@))],
        None => Seq::empty(),
    }
}

fn push_kv_opt(out: &mut Vec<Entry>, d: usize, key: &str, v: &Option<String>)
    ensures
        entries_view(final(out)@) == entries_view(old(out)@) + kv_opt_at(d as nat, key@, *v),
{
    let ghost before = entries_view(out@);
    match v {
        Some(s) => push_kv(out, d, key, s.as_str()),
        None => {},
    }
    assert(entries_view(out@) =~= before + kv_opt_at(d as nat, key@, *v));
}

/// A number of bytes, as shown.
pub open spec fn bytes_text(n: int) -> Seq<char> {
    int_to_decimal(n) + " bytes"@
}

/// The roles, named and joined with commas.
pub open spec fn roles_text(rs: Seq<Role>) -> Seq<char> {
    join_with(rs.map_values(|r: Role| role_name(r)), ", "@)
}

fn roles_string(rs: &Vec<Role>) -> (s: String)
    ensures
        s@ == roles_text(rs@),
{
    let mut names: Vec<String> = Vec::new();
    let mut i: usize = 0;
    while i < rs.len()
        invariant
            i <= rs@.len(),
            names.deep_view() == rs@.subrange(0, i as int).map_values(|r: Role| role_name(r)),
        decreases rs@.len() - i,
    {
        let n = match rs[i] {
            Role::User => string_from_str("User"),
            Role::Assistant => string_from_str("Assistant"),
        };
        let ghost before = names.deep_view();
        names.push(n);
        assert(names.deep_view() =~= before.push(role_name(rs@[i as int])));
        assert(rs@.subrange(0, i + 1).map_values(|r: Role| role_name(r)) =~= rs@.subrange(
            0,
            i as int,
        ).map_values(|r: Role| role_name(r)).push(role_name(rs@[i as int])));
        i = i + 1;
    }
    assert(rs@.subrange(0, rs@.len() as int) =~= rs@);
    join_strings(&names, ", ")
}

/// The labels annotations are shown with: capitalised in tool results,
/// in lower case in lists.
pub open spec fn annotation_label(capitalized: bool, k: nat) -> Seq<char> {
    if capitalized {
        if k == 0 { "Audience"@ } else if k == 1 { "Priority"@ } else { "Last Modified"@ }
    } else {
        if k == 0 { "audience"@ } else if k == 1 { "priority"@ } else { "last modified"@ }
    }
}

/// What annotations show: a heading at `d`, then each known field at `d + 1`.
pub open spec fn annotations_spec(d: nat, level: u8, capitalized: bool, a: ContentAnnotations) -> Seq<EntryView> {
    seq![ev(d, LineView::Heading(level, "Annotations"@))] + match a.audience {
        Some(v) => seq![ev((d + 1) as nat, LineView::Kv(annotation_label(capitalized, 0), roles_text(v@)))],
        None => Seq::empty(),
    } + kv_opt_at((d + 1) as nat, annotation_label(capitalized, 1), a.priority) + kv_opt_at(
        d + 1,
        annotation_label(capitalized, 2),
        a.last_modified,
    )
}

/// What optional annotations show.
pub open spec fn opt_annotations_spec(d: nat, level: u8, capitalized: bool, a: Option<ContentAnnotations>) -> Seq<EntryView> {
    match a {
        Some(x) => annotations_spec(d, level, capitalized, x),
        None => Seq::empty(),
    }
}

/// Shows annotations: a heading of `level` at `d`, then each known field.
pub fn display_annotations(out: &mut Vec<Entry>, d: usize, level: u8, capitalized: bool, a: &ContentAnnotations)
    requires
        d < usize::MAX,
    ensures
        entries_view(final(out)@) == entries_view(old(out)@) + annotations_spec(
            d as nat,
            level,
            capitalized,
            *a,
        ),
{
    let ghost before = entries_view(out@);
    push_heading(out, d, level, "Annotations");
    let (l0, l1, l2) = if capitalized {
        ("Audience", "Priority", "Last Modified")
    } else {
        ("audience", "priority", "last modified")
    };
    match &a.audience {
        Some(v) => {
            let t = roles_string(v);
            push_kv(out, d + 1, l0, t.as_str());
        },
        None => {},
    }
    push_kv_opt(out, d + 1, l1, &a.priority);
    push_kv_opt(out, d + 1, l2, &a.last_modified);
    assert(entries_view(out@) =~= before + annotations_spec(d as nat, level, capitalized, *a));
}

fn display_opt_annotations(out: &mut Vec<Entry>, d: usize, level: u8, capitalized: bool, a: &Option<ContentAnnotations>)
    requires
        d < usize::MAX,
    ensures
        entries_view(final(out)@) == entries_view(old(out)@) + opt_annotations_spec(
            d as nat,
            level,
            capitalized,
            *a,
        ),
{
    let ghost before = entries_view(out@);
    match a {
        Some(x) => display_annotations(out, d, level, capitalized, x),
        None => {},
    }
    assert(entries_view(out@) =~= before + opt_annotations_spec(d as nat, level, capitalized, *a));
}

fn push_bytes(out: &mut Vec<Entry>, d: usize, key: &str, n: u64)
    ensures
        entries_view(final(out)@) == entries_view(old(out)@).push(
            ev(d as nat, LineView::Kv(key@, bytes_text(n as int))),
        ),
{
    let mut t = u64_to_decimal(n);
    push_str(&mut t, " bytes");
    push_kv(out, d, key, t.as_str());
}

// ---------------------------------------------------------------------------
// Tool results
// ---------------------------------------------------------------------------

/// What embedded resource contents show in a tool result, at `d`.
pub open spec fn tool_resource_spec(d: nat, rc: ResourceContents) -> Seq<EntryView> {
    match rc {
        ResourceContents::Text { uri, mime_type, text } => seq![
            ev(d, LineView::Kv("Resource Type"@, "Text"@)),
            ev(d, LineView::Kv("URI"@, uri@)),
        ] + kv_opt_at(d, "MIME Type"@, mime_type) + seq![ev((d + 1) as nat, LineView::Text("Content:"@))]
            + lines_at((d + 2) as nat, text@),
        ResourceContents::Blob { uri, mime_type, blob } => seq![
            ev(d, LineView::Kv("Resource Type"@, "Blob"@)),
            ev(d, LineView::Kv("URI"@, uri@)),
        ] + kv_opt_at(d, "MIME Type"@, mime_type) + seq![
            ev(d, LineView::Kv("Data Length"@, bytes_text(byte_len(blob@) as int))),
        ],
    }
}

fn display_tool_resource(out: &mut Vec<Entry>, d: usize, rc: &ResourceContents)
    requires
        d + 2 <= usize::MAX,
    ensures
        entries_view(final(out)@) == entries_view(old(out)@) + tool_resource_spec(d as nat, *rc),
{
    let ghost before = entries_view(out@);
    match rc {
        ResourceContents::Text { uri, mime_type, text } => {
            push_kv(out, d, "Resource Type", "Text");
            push_kv(out, d, "URI", uri.as_str());
            push_kv_opt(out, d, "MIME Type", mime_type);
            push_text(out, d + 1, "Content:");
            push_lines(out, d + 2, text.as_str());
        },
        ResourceContents::Blob { uri, mime_type, blob } => {
            push_kv(out, d, "Resource Type", "Blob");
            push_kv(out, d, "URI", uri.as_str());
            push_kv_opt(out, d, "MIME Type", mime_type);
            let n = blob.as_str().len();
            push_bytes(out, d, "Data Length", n as u64);
        },
    }
    assert(entries_view(out@) =~= before + tool_resource_spec(d as nat, *rc));
}

/// What a text block of a tool result shows, at `d`.
pub open spec fn text_block_spec(d: nat, text: Seq<char>, a: Option<ContentAnnotations>) -> Seq<EntryView> {
    seq![ev(d, LineView::Kv("Type"@, "Text"@))] + lines_at((d + 1) as nat, text)
        + opt_annotations_spec((d + 1) as nat, 3, true, a)
}

/// What an image or audio block of a tool result shows, at `d`.
pub open spec fn media_block_spec(d: nat, kind: Seq<char>, mime_type: Seq<char>, data: Seq<char>, a: Option<ContentAnnotations>) -> Seq<EntryView> {
    seq![
        ev(d, LineView::Kv("Type"@, kind)),
        ev((d + 1) as nat, LineView::Kv("MIME Type"@, mime_type)),
        ev((d + 1) as nat, LineView::Kv("Data Length"@, bytes_text(byte_len(data) as int))),
    ] + opt_annotations_spec((d + 1) as nat, 3, true, a)
}

/// What an embedded resource block of a tool result shows, at `d`.
pub open spec fn embedded_block_spec(d: nat, r: ResourceContents, a: Option<ContentAnnotations>) -> Seq<EntryView> {
    seq![ev(d, LineView::Kv("Type"@, "Embedded Resource"@))] + tool_resource_spec((d + 1) as nat, r)
        + opt_annotations_spec((d + 1) as nat, 3, true, a)
}

/// What a resource link block of a tool result shows, at `d`, before its
/// annotations.
pub open spec fn link_fields_spec(
    d: nat,
    uri: Seq<char>,
    name: Seq<char>,
    title: Option<String>,
    description: Option<String>,
    mime_type: Option<String>,
    size: Option<i64>,
) -> Seq<EntryView> {
    seq![
        ev(d, LineView::Kv("Type"@, "Resource Link"@)),
        ev((d + 1) as nat, LineView::Kv("Name"@, name)),
        ev((d + 1) as nat, LineView::Kv("URI"@, uri)),
    ] + kv_opt_at((d + 1) as nat, "Title"@, title) + kv_opt_at((d + 1) as nat, "Description"@, description)
        + kv_opt_at((d + 1) as nat, "MIME Type"@, mime_type) + match size {
        Some(n) => seq![ev((d + 1) as nat, LineView::Kv("Size"@, bytes_text(n as int)))],
        None => Seq::empty(),
    }
}

/// What one block of a tool result shows, at `d`.
pub open spec fn tool_content_spec(d: nat, c: ContentBlock) -> Seq<EntryView> {
    match c {
        ContentBlock::Text { text, annotations } => text_block_spec(d, text@, annotations),
        ContentBlock::Image { mime_type, data, annotations } => media_block_spec(
            d,
            "Image"@,
            mime_type@,
            data@,
            annotations,
        ),
        ContentBlock::Audio { mime_type, data, annotations } => media_block_spec(
            d,
            "Audio"@,
            mime_type@,
            data@,
            annotations,
        ),
        ContentBlock::EmbeddedResource { resource, annotations } => embedded_block_spec(
            d,
            resource,
            annotations,
        ),
        ContentBlock::ResourceLink {
            uri,
            name,
            title,
            description,
            mime_type,
            size,
            annotations,
        } => link_fields_spec(d, uri@, name@, title, description, mime_type, size)
            + opt_annotations_spec((d + 1) as nat, 3, true, annotations),
    }
}

fn display_text_block(out: &mut Vec<Entry>, d: usize, text: &str, a: &Option<ContentAnnotations>)
    requires
        d + 1 < usize::MAX,
    ensures
        entries_view(final(out)@) == entries_view(old(out)@) + text_block_spec(d as nat, text@, *a),
{
    let ghost before = entries_view(out@);
    push_kv(out, d, "Type", "Text");
    push_lines(out, d + 1, text);
    display_opt_annotations(out, d + 1, 3, true, a);
    assert(entries_view(out@) =~= before + text_block_spec(d as nat, text@, *a));
}

fn display_media(out: &mut Vec<Entry>, d: usize, kind: &str, mime_type: &str, data: &str, a: &Option<ContentAnnotations>)
    requires
        d + 1 < usize::MAX,
    ensures
        entries_view(final(out)@) == entries_view(old(out)@) + media_block_spec(
            d as nat,
            kind@,
            mime_type@,
            data@,
            *a,
        ),
{
    let ghost before = entries_view(out@);
    push_kv(out, d, "Type", kind);
    push_kv(out, d + 1, "MIME Type", mime_type);
    let n = data.len();
    push_bytes(out, d + 1, "Data Length", n as u64);
    display_opt_annotations(out, d + 1, 3, true, a);
    assert(entries_view(out@) =~= before + media_block_spec(d as nat, kind@, mime_type@, data@, *a));
}

fn display_embedded(out: &mut Vec<Entry>, d: usize, r: &ResourceContents, a: &Option<ContentAnnotations>)
    requires
        d + 3 <= usize::MAX,
    ensures
        entries_view(final(out)@) == entries_view(old(out)@) + embedded_block_spec(d as nat, *r, *a),
{
    let ghost before = entries_view(out@);
    push_kv(out, d, "Type", "Embedded Resource");
    display_tool_resource(out, d + 1, r);
    display_opt_annotations(out, d + 1, 3, true, a);
    assert(entries_view(out@) =~= before + embedded_block_spec(d as nat, *r, *a));
}

fn display_link(
    out: &mut Vec<Entry>,
    d: usize,
    uri: &str,
    name: &str,
    title: &Option<String>,
    description: &Option<String>,
    mime_type: &Option<String>,
    size: Option<i64>,
)
    requires
        d + 1 <= usize::MAX,
    ensures
        entries_view(final(out)@) == entries_view(old(out)@) + link_fields_spec(
            d as nat,
            uri@,
            name@,
            *title,
            *description,
            *mime_type,
            size,
        ),
{
    let ghost before = entries_view(out@);
    push_kv(out, d, "Type", "Resource Link");
    push_kv(out, d + 1, "Name", name);
    push_kv(out, d + 1, "URI", uri);
    push_kv_opt(out, d + 1, "Title", title);
    push_kv_opt(out, d + 1, "Description", description);
    push_kv_opt(out, d + 1, "MIME Type", mime_type);
    match size {
        Some(n) => {
            let mut t = i64_to_decimal(n);
            push_str(&mut t, " bytes");
            push_kv(out, d + 1, "Size", t.as_str());
        },
        None => {},
    }
    assert(entries_view(out@) =~= before + link_fields_spec(
        d as nat,
        uri@,
        name@,
        *title,
        *description,
        *mime_type,
        size,
    ));
}

/// Shows one block of a tool result at `d`.
pub fn display_tool_content(out: &mut Vec<Entry>, d: usize, c: &ContentBlock)
    requires
        d + 3 <= usize::MAX,
    ensures
        entries_view(final(out)@) == entries_view(old(out)@) + tool_content_spec(d as nat, *c),
{
    match c {
        ContentBlock::Text { text, annotations } => {
            display_text_block(out, d, text.as_str(), annotations);
        },
        ContentBlock::Image { mime_type, data, annotations } => {
            display_media(out, d, "Image", mime_type.as_str(), data.as_str(), annotations);
        },
        ContentBlock::Audio { mime_type, data, annotations } => {
            display_media(out, d, "Audio", mime_type.as_str(), data.as_str(), annotations);
        },
        ContentBlock::EmbeddedResource { resource, annotations } => {
            display_embedded(out, d, resource, annotations);
        },
        ContentBlock::ResourceLink { uri, name, title, description, mime_type, size, annotations } => {
            let ghost before = entries_view(out@);
            display_link(out, d, uri.as_str(), name.as_str(), title, description, mime_type, *size);
            display_opt_annotations(out, d + 1, 3, true, annotations);
            assert(entries_view(out@) =~= before + tool_content_spec(d as nat, *c));
        },
    }
}

/// The result of calling a tool.
pub struct ToolResult {
    /// The blocks of content it returned.
    pub content: Vec<ContentBlock>,
    /// Whether the tool reported an error.
    pub is_error: Option<bool>,
    /// Structured content, as pretty-printed JSON.
    pub structured: Option<String>,
}

/// The entries for the blocks of a tool result; with more than one block,
/// each is headed by its number.
pub open spec fn tool_contents_spec(cs: Seq<ContentBlock>, numbered: bool) -> Seq<EntryView>
    decreases cs.len(),
{
    if cs.len() == 0 {
        Seq::empty()
    } else {
        tool_contents_spec(cs.drop_last(), numbered) + if numbered {
            seq![ev(3, LineView::Heading(3, "Content "@ + nat_to_decimal(cs.len())))]
                + tool_content_spec(4, cs.last())
        } else {
            tool_content_spec(3, cs.last())
        }
    }
}

/// What the result of calling a tool shows as text.
pub open spec fn call_tool_spec(r: ToolResult) -> Seq<EntryView> {
    seq![
        ev(0, LineView::Heading(1, "Tool Result"@)),
        if r.is_error == Some(true) {
            ev(1, LineView::TraceError("Tool execution resulted in an error"@))
        } else {
            ev(1, LineView::TraceSuccess("Tool executed successfully"@))
        },
    ] + (if r.content@.len() > 0 {
        seq![ev(2, LineView::Heading(2, "Content"@))] + tool_contents_spec(
            r.content@,
            r.content@.len() > 1,
        )
    } else {
        Seq::empty()
    }) + match r.structured {
        Some(s) => seq![ev(2, LineView::Heading(2, "Structured Content"@))] + lines_at(3, s@),
        None => Seq::empty(),
    }
}

/// A tool result is reported as an error exactly when the server said it
/// is one (`is_error` is `Some(true)`); when the flag is absent or false
/// the call is reported as successful. The report follows the heading.
pub proof fn lemma_tool_result_status(r: ToolResult)
    ensures
        (call_tool_spec(r)[1].line is TraceError) <==> r.is_error == Some(true),
        r.is_error != Some(true) ==> call_tool_spec(r)[1] == ev(
            1,
            LineView::TraceSuccess("Tool executed successfully"@),
        ),
        call_tool_spec(r)[0] == ev(0, LineView::Heading(1, "Tool Result"@)),
{
}

fn display_tool_contents(out: &mut Vec<Entry>, cs: &Vec<ContentBlock>)
    ensures
        entries_view(final(out)@) == entries_view(old(out)@) + tool_contents_spec(
            cs@,
            cs@.len() > 1,
        ),
{
    let ghost head = entries_view(out@);
    let numbered = cs.len() > 1;
    let mut i: usize = 0;
    while i < cs.len()
        invariant
            i <= cs@.len(),
            numbered == (cs@.len() > 1),
            entries_view(out@) == head + tool_contents_spec(cs@.subrange(0, i as int), numbered),
        decreases cs@.len() - i,
    {
        if numbered {
            let mut h = string_from_str("Content ");
            let k = u64_to_decimal((i + 1) as u64);
            push_str(&mut h, k.as_str());
            push_entry(out, 3, Line::Heading(3, h));
            display_tool_content(out, 4, &cs[i]);
        } else {
            display_tool_content(out, 3, &cs[i]);
        }
        proof {
            let next = cs@.subrange(0, i + 1);
            assert(next.drop_last() =~= cs@.subrange(0, i as int));
        }
        i = i + 1;
    }
    assert(cs@.subrange(0, cs@.len() as int) =~= cs@);
}

/// Shows the result of calling a tool.
pub fn call_tool_result(out: &mut Vec<Entry>, r: &ToolResult)
    ensures
        entries_view(final(out)@) == entries_view(old(out)@) + call_tool_spec(*r),
{
    let ghost before = entries_view(out@);
    push_heading(out, 0, 1, "Tool Result");
    match r.is_error {
        Some(true) => push_entry(
            out,
            1,
            Line::TraceError(string_from_str("Tool execution resulted in an error")),
        ),
        _ => push_entry(out, 1, Line::TraceSuccess(string_from_str("Tool executed successfully"))),
    }
    if r.content.len() > 0 {
        push_heading(out, 2, 2, "Content");
        display_tool_contents(out, &r.content);
    }
    match &r.structured {
        Some(s) => {
            push_heading(out, 2, 2, "Structured Content");
            push_lines(out, 3, s.as_str());
        },
        None => {},
    }
    assert(entries_view(out@) =~= before + call_tool_spec(*r));
}


// ---------------------------------------------------------------------------
// Tool schemas
// ---------------------------------------------------------------------------

/// The `type` a property's schema gives.
pub enum SchemaType {
    /// One type, by name.
    Name(String),
    /// A union: the names among the listed types.
    Union(Vec<String>),
    /// No type the display understands.
    Unknown,
}

/// One property of a tool's input or output schema.
pub struct PropertyInfo {
    /// The property's name.
    pub name: String,
    /// Whether the schema lists it as required.
    pub required: bool,
    /// Its type.
    pub schema_type: SchemaType,
    /// Its description, where the schema gives one as text.
    pub description: Option<String>,
    /// The rest of its schema as pretty JSON, where anything is left.
    pub rest: Option<String>,
}

/// How a type is shown.
pub open spec fn type_text(t: SchemaType) -> Seq<char> {
    match t {
        SchemaType::Name(n) => n@,
        SchemaType::Union(v) => join_with(v.deep_view(), " | "@),
        SchemaType::Unknown => "unknown"@,
    }
}

/// Whether property `a` is shown before `b`: required ones first, then by name.
pub open spec fn prop_before(a: PropertyInfo, b: PropertyInfo) -> bool {
    (a.required && !b.required) || (a.required == b.required && text_lt(a.name@, b.name@))
}

/// Whether the properties are in the order they are shown in.
pub open spec fn props_in_order(s: Seq<PropertyInfo>) -> bool {
    forall|i: int, j: int| 0 <= i < j < s.len() ==> prop_before(#[trigger] s[i], #[trigger] s[j])
}

/// Whether no two properties share a name, as in a schema's map of them.
pub open spec fn names_distinct(s: Seq<PropertyInfo>) -> bool {
    forall|i: int, j: int| 0 <= i < j < s.len() ==> #[trigger] s[i].name@ != #[trigger] s[j].name@
}

/// The properties in the order they are shown in.
pub open spec fn schema_order(s: Seq<PropertyInfo>) -> Seq<PropertyInfo> {
    choose|t: Seq<PropertyInfo>| t.to_multiset() == s.to_multiset() && props_in_order(t)
}

proof fn lemma_prop_before_irreflexive(a: PropertyInfo)
    ensures
        !prop_before(a, a),
{
    lemma_text_lt_irreflexive(a.name@);
}

proof fn lemma_prop_before_transitive(a: PropertyInfo, b: PropertyInfo, c: PropertyInfo)
    requires
        prop_before(a, b),
        prop_before(b, c),
    ensures
        prop_before(a, c),
{
    if a.required == b.required && b.required == c.required {
        lemma_text_lt_transitive(a.name@, b.name@, c.name@);
    }
}

proof fn lemma_prop_before_asymmetric(a: PropertyInfo, b: PropertyInfo)
    requires
        prop_before(a, b),
    ensures
        !prop_before(b, a),
{
    if prop_before(b, a) {
        lemma_prop_before_transitive(a, b, a);
        lemma_prop_before_irreflexive(a);
    }
}

proof fn lemma_prop_before_total(a: PropertyInfo, b: PropertyInfo)
    requires
        a.name@ != b.name@,
    ensures
        prop_before(a, b) || prop_before(b, a),
{
    lemma_text_lt_total(a.name@, b.name@);
}

/// Two orderings of the same properties that both keep the display order
/// are the same.
proof fn lemma_order_unique(s: Seq<PropertyInfo>, t: Seq<PropertyInfo>)
    requires
        props_in_order(s),
        props_in_order(t),
        s.to_multiset() == t.to_multiset(),
    ensures
        s == t,
    decreases s.len(),
{
    broadcast use vstd::seq_lib::group_to_multiset_ensures;

    vstd::seq_lib::to_multiset_len(s);
    vstd::seq_lib::to_multiset_len(t);
    if s.len() == 0 {
        assert(t.len() == 0);
        assert(s =~= t);
    } else {
        assert(t.len() == s.len());
        assert(s.contains(s[0]));
        assert(t.to_multiset().count(s[0]) > 0);
        assert(t.contains(s[0]));
        let k = choose|k: int| 0 <= k < t.len() && t[k] == s[0];
        assert(t.contains(t[0]));
        assert(s.to_multiset().count(t[0]) > 0);
        assert(s.contains(t[0]));
        let m = choose|m: int| 0 <= m < s.len() && s[m] == t[0];
        if k > 0 {
            assert(prop_before(t[0], t[k]));
            if m > 0 {
                assert(prop_before(s[0], s[m]));
                lemma_prop_before_asymmetric(t[0], s[0]);
            } else {
                lemma_prop_before_irreflexive(t[0]);
            }
        } else if m > 0 {
            assert(prop_before(s[0], s[m]));
            lemma_prop_before_irreflexive(s[0]);
        }
        assert(t[0] == s[0]);
        assert(s.remove(0) =~= s.drop_first());
        assert(t.remove(0) =~= t.drop_first());
        assert(s.drop_first().to_multiset() == t.drop_first().to_multiset());
        assert(props_in_order(s.drop_first())) by {
            assert forall|i: int, j: int| 0 <= i < j < s.drop_first().len() implies prop_before(
                #[trigger] s.drop_first()[i],
                #[trigger] s.drop_first()[j],
            ) by {
                assert(s.drop_first()[i] == s[i + 1] && s.drop_first()[j] == s[j + 1]);
            }
        }
        assert(props_in_order(t.drop_first())) by {
            assert forall|i: int, j: int| 0 <= i < j < t.drop_first().len() implies prop_before(
                #[trigger] t.drop_first()[i],
                #[trigger] t.drop_first()[j],
            ) by {
                assert(t.drop_first()[i] == t[i + 1] && t.drop_first()[j] == t[j + 1]);
            }
        }
        lemma_order_unique(s.drop_first(), t.drop_first());
        assert(s =~= seq![s[0]] + s.drop_first());
        assert(t =~= seq![t[0]] + t.drop_first());
    }
}

fn prop_less(a: &PropertyInfo, b: &PropertyInfo) -> (r: bool)
    ensures
        r == prop_before(*a, *b),
{
    (a.required && !b.required) || (a.required == b.required && text_less(
        a.name.as_str(),
        b.name.as_str(),
    ))
}

/// Puts a schema's properties in the order they are shown in: required
/// ones first, then by name. Each name occurs once, as in the schema.
pub fn sort_properties(props: Vec<PropertyInfo>) -> (r: Vec<PropertyInfo>)
    requires
        names_distinct(props@),
    ensures
        r@ == schema_order(props@),
        r@.to_multiset() == props@.to_multiset(),
        props_in_order(r@),
{
    broadcast use vstd::seq_lib::group_to_multiset_ensures;

    let ghost given = props@;
    let mut rest = props;
    let mut out: Vec<PropertyInfo> = Vec::new();
    proof {
        vstd::multiset::lemma_multiset_empty_len(out@.to_multiset());
        assert(given.subrange(given.len() as int, given.len() as int).to_multiset().len()
            == 0);
        vstd::multiset::lemma_multiset_empty_len(
            given.subrange(given.len() as int, given.len() as int).to_multiset(),
        );
        assert(rest@ =~= given.subrange(0, given.len() as int));
    }
    while rest.len() > 0
        invariant
            rest@ == given.subrange(0, rest@.len() as int),
            rest@.len() <= given.len(),
            names_distinct(given),
            out@.to_multiset() == given.subrange(rest@.len() as int, given.len() as int).to_multiset(),
            props_in_order(out@),
        decreases rest@.len(),
    {
        let ghost k = rest@.len() - 1;
        let x = rest.pop().unwrap();
        assert(x == given[k]);
        let ghost old_out = out@;
        proof {
            assert forall|i: int| 0 <= i < old_out.len() implies #[trigger] old_out[i].name@ != x.name@ by {
                assert(old_out.contains(old_out[i]));
                let tail = given.subrange(k + 1, given.len() as int);
                vstd::seq_lib::to_multiset_contains(old_out, old_out[i]);
                vstd::seq_lib::to_multiset_contains(tail, old_out[i]);
                assert(old_out.to_multiset().count(old_out[i]) > 0);
                assert(old_out.to_multiset() == tail.to_multiset());
                assert(tail.to_multiset().count(old_out[i]) > 0);
                assert(tail.contains(old_out[i]));
                let j = choose|j: int| 0 <= j < tail.len() && tail[j] == old_out[i];
                assert(tail[j] == given[k + 1 + j]);
            }
        }
        let mut p: usize = 0;
        while p < out.len() && prop_less(&out[p], &x)
            invariant
                p <= out@.len(),
                out@ == old_out,
                forall|q: int| 0 <= q < p ==> prop_before(#[trigger] out@[q], x),
            decreases out@.len() - p,
        {
            p = p + 1;
        }
        proof {
            if p < old_out.len() {
                lemma_prop_before_total(old_out[p as int], x);
            }
            assert forall|q: int| p <= q < old_out.len() implies prop_before(
                x,
                #[trigger] old_out[q],
            ) by {
                if q > p {
                    lemma_prop_before_transitive(x, old_out[p as int], old_out[q]);
                }
            }
        }
        out.insert(p, x);
        proof {
            let t = out@;
            assert(t == old_out.insert(p as int, x));
            assert forall|i: int, j: int| 0 <= i < j < t.len() implies prop_before(
                #[trigger] t[i],
                #[trigger] t[j],
            ) by {
                if j < p {
                    assert(t[i] == old_out[i] && t[j] == old_out[j]);
                } else if j == p {
                    assert(t[i] == old_out[i] && t[j] == x);
                } else if i < p {
                    assert(t[i] == old_out[i] && t[j] == old_out[j - 1]);
                    lemma_prop_before_transitive(old_out[i], x, old_out[j - 1]);
                } else if i == p {
                    assert(t[i] == x && t[j] == old_out[j - 1]);
                } else {
                    assert(t[i] == old_out[i - 1] && t[j] == old_out[j - 1]);
                }
            }
            let tail = given.subrange(k, given.len() as int);
            assert(tail =~= given.subrange(k + 1, given.len() as int).insert(0, x));
            vstd::seq_lib::to_multiset_insert(old_out, p as int, x);
            vstd::seq_lib::to_multiset_insert(given.subrange(k + 1, given.len() as int), 0, x);
        }
    }
    proof {
        assert(given.subrange(0, given.len() as int) =~= given);
        let r = out@;
        assert(r.to_multiset() == given.to_multiset() && props_in_order(r));
        let t = schema_order(given);
        assert(t.to_multiset() == given.to_multiset() && props_in_order(t));
        lemma_order_unique(r, t);
    }
    out
}


/// What one property shows, its name and type at `d` and the rest below.
pub open spec fn property_spec(d: nat, p: PropertyInfo) -> Seq<EntryView> {
    seq![ev(d, LineView::Kv(p.name@, type_text(p.schema_type)))] + (if p.required {
        seq![ev((d + 1) as nat, LineView::Note("[required]"@))]
    } else {
        Seq::empty()
    }) + match p.description {
        Some(x) => seq![ev((d + 1) as nat, LineView::Text(x@))],
        None => Seq::empty(),
    } + match p.rest {
        Some(r) => lines_at((d + 1) as nat, r@),
        None => Seq::empty(),
    }
}

/// What the properties show, in the order given.
pub open spec fn properties_spec(d: nat, ps: Seq<PropertyInfo>) -> Seq<EntryView>
    decreases ps.len(),
{
    if ps.len() == 0 {
        Seq::empty()
    } else {
        properties_spec(d, ps.drop_last()) + property_spec(d, ps.last())
    }
}

fn type_string(t: &SchemaType) -> (s: String)
    ensures
        s@ == type_text(*t),
{
    match t {
        SchemaType::Name(n) => n.clone(),
        SchemaType::Union(v) => join_strings(v, " | "),
        SchemaType::Unknown => string_from_str("unknown"),
    }
}

fn display_property(out: &mut Vec<Entry>, d: usize, p: &PropertyInfo)
    requires
        d < usize::MAX,
    ensures
        entries_view(final(out)@) == entries_view(old(out)@) + property_spec(d as nat, *p),
{
    let ghost before = entries_view(out@);
    let t = type_string(&p.schema_type);
    push_kv(out, d, p.name.as_str(), t.as_str());
    if p.required {
        push_entry(out, d + 1, Line::Note(string_from_str("[required]")));
    }
    match &p.description {
        Some(x) => push_text(out, d + 1, x.as_str()),
        None => {},
    }
    match &p.rest {
        Some(r) => push_lines(out, d + 1, r.as_str()),
        None => {},
    }
    assert(entries_view(out@) =~= before + property_spec(d as nat, *p));
}

/// Shows a schema's properties at `d`: required ones first, then by name.
pub fn toolschema(out: &mut Vec<Entry>, d: usize, props: Vec<PropertyInfo>)
    requires
        d < usize::MAX,
        names_distinct(props@),
    ensures
        entries_view(final(out)@) == entries_view(old(out)@) + properties_spec(
            d as nat,
            schema_order(props@),
        ),
{
    let sorted = sort_properties(props);
    let ghost head = entries_view(out@);
    let mut i: usize = 0;
    while i < sorted.len()
        invariant
            i <= sorted@.len(),
            d < usize::MAX,
            entries_view(out@) == head + properties_spec(d as nat, sorted@.subrange(0, i as int)),
        decreases sorted@.len() - i,
    {
        display_property(out, d, &sorted[i]);
        proof {
            let next = sorted@.subrange(0, i + 1);
            assert(next.drop_last() =~= sorted@.subrange(0, i as int));
        }
        i = i + 1;
    }
    assert(sorted@.subrange(0, sorted@.len() as int) =~= sorted@);
}

// ---------------------------------------------------------------------------
// Lists of tools, resources, prompts and resource templates
// ---------------------------------------------------------------------------

/// A tool, as the list of tools shows it.
pub struct ToolInfo {
    pub name: String,
    pub description: Option<String>,
    /// The tool's annotations, where it has any, by their title.
    pub annotations: Option<Option<String>>,
    /// The properties of its input schema.
    pub input: Vec<PropertyInfo>,
    /// The properties of its output schema.
    pub output: Vec<PropertyInfo>,
}

/// Whether each schema of each tool names each property once.
pub open spec fn tools_well_named(ts: Seq<ToolInfo>) -> bool {
    forall|i: int|
        0 <= i < ts.len() ==> names_distinct(#[trigger] ts[i].input@) && names_distinct(
            ts[i].output@,
        )
}

/// The lines of an optional text at `d`.
pub open spec fn opt_lines_at(d: nat, s: Option<String>) -> Seq<EntryView> {
    match s {
        Some(x) => lines_at(d, x@),
        None => Seq::empty(),
    }
}

/// What a schema section shows: a heading and the properties, where there are any.
pub open spec fn schema_section_spec(title: Seq<char>, ps: Seq<PropertyInfo>) -> Seq<EntryView> {
    if ps.len() > 0 {
        seq![ev(2, LineView::Heading(2, title))] + properties_spec(3, schema_order(ps))
    } else {
        Seq::empty()
    }
}

/// What one tool shows.
pub open spec fn tool_spec(t: ToolInfo) -> Seq<EntryView> {
    seq![ev(0, LineView::Heading(1, t.name@))] + opt_lines_at(1, t.description) + match t.annotations {
        Some(title) => seq![ev(2, LineView::Heading(2, "Annotations"@))] + kv_opt_at(3, "title"@, title),
        None => Seq::empty(),
    } + schema_section_spec("Input"@, t.input@) + schema_section_spec("Output"@, t.output@) + seq![
        ev(0, LineView::Text(Seq::empty())),
    ]
}

/// What each tool shows, in order.
pub open spec fn tools_spec(ts: Seq<ToolInfo>) -> Seq<EntryView>
    decreases ts.len(),
{
    if ts.len() == 0 {
        Seq::empty()
    } else {
        tools_spec(ts.drop_last()) + tool_spec(ts.last())
    }
}

/// What the list of tools shows.
pub open spec fn list_tools_spec(ts: Seq<ToolInfo>) -> Seq<EntryView> {
    if ts.len() == 0 {
        seq![ev(0, LineView::Text("No tools."@))]
    } else {
        tools_spec(ts)
    }
}

fn push_opt_lines(out: &mut Vec<Entry>, d: usize, s: &Option<String>)
    ensures
        entries_view(final(out)@) == entries_view(old(out)@) + opt_lines_at(d as nat, *s),
{
    let ghost before = entries_view(out@);
    match s {
        Some(x) => push_lines(out, d, x.as_str()),
        None => {},
    }
    assert(entries_view(out@) =~= before + opt_lines_at(d as nat, *s));
}

fn schema_section(out: &mut Vec<Entry>, title: &str, ps: Vec<PropertyInfo>)
    requires
        names_distinct(ps@),
    ensures
        entries_view(final(out)@) == entries_view(old(out)@) + schema_section_spec(title@, ps@),
{
    let ghost before = entries_view(out@);
    let ghost pv = ps@;
    if ps.len() > 0 {
        push_heading(out, 2, 2, title);
        toolschema(out, 3, ps);
    }
    assert(entries_view(out@) =~= before + schema_section_spec(title@, pv));
}

fn display_tool(out: &mut Vec<Entry>, t: ToolInfo)
    requires
        names_distinct(t.input@),
        names_distinct(t.output@),
    ensures
        entries_view(final(out)@) == entries_view(old(out)@) + tool_spec(t),
{
    let ghost before = entries_view(out@);
    let ghost tv = t;
    push_heading(out, 0, 1, t.name.as_str());
    push_opt_lines(out, 1, &t.description);
    match &t.annotations {
        Some(title) => {
            push_heading(out, 2, 2, "Annotations");
            push_kv_opt(out, 3, "title", title);
        },
        None => {},
    }
    let ghost mid = entries_view(out@);
    let ToolInfo { input, output, .. } = t;
    schema_section(out, "Input", input);
    schema_section(out, "Output", output);
    push_text(out, 0, "");
    assert(Seq::<char>::empty() =~= ""@) by {
        reveal_strlit("");
    }
    assert(entries_view(out@) =~= before + tool_spec(tv));
}

/// Shows the tools a server offers.
pub fn list_tools_result(out: &mut Vec<Entry>, tools: Vec<ToolInfo>)
    requires
        tools_well_named(tools@),
    ensures
        entries_view(final(out)@) == entries_view(old(out)@) + list_tools_spec(tools@),
{
    let ghost before = entries_view(out@);
    let ghost all = tools@;
    if tools.len() == 0 {
        push_text(out, 0, "No tools.");
        assert(entries_view(out@) =~= before + list_tools_spec(all));
        return;
    }
    let total = tools.len();
    let mut rest = tools;
    let mut taken: usize = 0;
    let ghost n = all.len();
    proof {
        assert(all.subrange(0, 0) =~= Seq::<ToolInfo>::empty());
        assert(rest@ =~= all.subrange(0, n as int));
    }
    // Take the tools from the front, keeping them in order.
    rest = reverse(rest);
    while rest.len() > 0
        invariant
            n == all.len(),
            n == total,
            taken + rest@.len() == n,
            tools_well_named(all),
            forall|j: int| 0 <= j < rest@.len() ==> #[trigger] rest@[j] == all[n - 1 - j],
            entries_view(out@) == before + tools_spec(all.subrange(0, taken as int)),
        decreases rest@.len(),
    {
        let t = rest.pop().unwrap();
        assert(t == all[taken as int]);
        assert(names_distinct(all[taken as int].input@));
        display_tool(out, t);
        proof {
            let next = all.subrange(0, taken + 1);
            assert(next.drop_last() =~= all.subrange(0, taken as int));
        }
        taken = taken + 1;
    }
    assert(all.subrange(0, n as int) =~= all);
    assert(entries_view(out@) =~= before + list_tools_spec(all));
}

/// The items of a vector in the opposite order.
fn reverse<T>(v: Vec<T>) -> (r: Vec<T>)
    ensures
        r@.len() == v@.len(),
        forall|j: int| 0 <= j < v@.len() ==> #[trigger] r@[j] == v@[v@.len() - 1 - j],
{
    let ghost orig = v@;
    let mut v = v;
    let mut r: Vec<T> = Vec::new();
    while v.len() > 0
        invariant
            v@ == orig.subrange(0, v@.len() as int),
            r@.len() + v@.len() == orig.len(),
            forall|j: int| 0 <= j < r@.len() ==> #[trigger] r@[j] == orig[orig.len() - 1 - j],
        decreases v@.len(),
    {
        let x = v.pop().unwrap();
        r.push(x);
    }
    r
}


/// A resource, as the list of resources shows it.
pub struct ResourceInfo {
    pub uri: String,
    pub description: Option<String>,
    pub mime_type: Option<String>,
    pub size: Option<i64>,
    pub annotations: Option<ContentAnnotations>,
}

/// What one resource shows.
pub open spec fn resource_spec(r: ResourceInfo) -> Seq<EntryView> {
    seq![ev(0, LineView::Heading(1, r.uri@)), ev(0, LineView::Text(Seq::empty()))] + match r.description {
        Some(x) => lines_at(1, x@) + seq![ev(1, LineView::Text(Seq::empty()))],
        None => Seq::empty(),
    } + kv_opt_at(1, "MIME type"@, r.mime_type) + match r.size {
        Some(n) => seq![ev(1, LineView::Kv("Size"@, bytes_text(n as int)))],
        None => Seq::empty(),
    } + opt_annotations_spec(2, 2, false, r.annotations) + seq![ev(0, LineView::Text(Seq::empty()))]
}

/// What each resource shows, in order.
pub open spec fn resources_spec(rs: Seq<ResourceInfo>) -> Seq<EntryView>
    decreases rs.len(),
{
    if rs.len() == 0 {
        Seq::empty()
    } else {
        resources_spec(rs.drop_last()) + resource_spec(rs.last())
    }
}

/// The note that more items can be fetched, where there is a cursor.
pub open spec fn cursor_spec(what: Seq<char>, cursor: Option<String>) -> Seq<EntryView> {
    match cursor {
        Some(c) => seq![
            ev(0, LineView::Note("More "@ + what + " available. Next cursor: "@ + c@)),
        ],
        None => Seq::empty(),
    }
}

/// What the list of resources shows.
pub open spec fn list_resources_spec(rs: Seq<ResourceInfo>, cursor: Option<String>) -> Seq<EntryView> {
    (if rs.len() == 0 {
        seq![ev(0, LineView::Text("No resources."@))]
    } else {
        resources_spec(rs)
    }) + cursor_spec("resources"@, cursor)
}

fn push_cursor(out: &mut Vec<Entry>, what: &str, cursor: &Option<String>)
    ensures
        entries_view(final(out)@) == entries_view(old(out)@) + cursor_spec(what@, *cursor),
{
    let ghost before = entries_view(out@);
    match cursor {
        Some(c) => {
            let mut t = string_from_str("More ");
            push_str(&mut t, what);
            push_str(&mut t, " available. Next cursor: ");
            push_str(&mut t, c.as_str());
            push_entry(out, 0, Line::Note(t));
        },
        None => {},
    }
    assert(entries_view(out@) =~= before + cursor_spec(what@, *cursor));
}

fn display_resource(out: &mut Vec<Entry>, r: &ResourceInfo)
    ensures
        entries_view(final(out)@) == entries_view(old(out)@) + resource_spec(*r),
{
    let ghost before = entries_view(out@);
    push_heading(out, 0, 1, r.uri.as_str());
    push_text(out, 0, "");
    match &r.description {
        Some(x) => {
            push_lines(out, 1, x.as_str());
            push_text(out, 1, "");
        },
        None => {},
    }
    push_kv_opt(out, 1, "MIME type", &r.mime_type);
    match r.size {
        Some(n) => {
            let mut t = i64_to_decimal(n);
            push_str(&mut t, " bytes");
            push_kv(out, 1, "Size", t.as_str());
        },
        None => {},
    }
    display_opt_annotations(out, 2, 2, false, &r.annotations);
    push_text(out, 0, "");
    assert(Seq::<char>::empty() =~= ""@) by {
        reveal_strlit("");
    }
    assert(entries_view(out@) =~= before + resource_spec(*r));
}

/// Shows the resources a server offers.
pub fn list_resources_result(out: &mut Vec<Entry>, resources: &Vec<ResourceInfo>, next_cursor: &Option<String>)
    ensures
        entries_view(final(out)@) == entries_view(old(out)@) + list_resources_spec(
            resources@,
            *next_cursor,
        ),
{
    let ghost before = entries_view(out@);
    if resources.len() == 0 {
        push_text(out, 0, "No resources.");
    } else {
        let mut i: usize = 0;
        while i < resources.len()
            invariant
                i <= resources@.len(),
                entries_view(out@) == before + resources_spec(resources@.subrange(0, i as int)),
            decreases resources@.len() - i,
        {
            display_resource(out, &resources[i]);
            proof {
                let next = resources@.subrange(0, i + 1);
                assert(next.drop_last() =~= resources@.subrange(0, i as int));
            }
            i = i + 1;
        }
        assert(resources@.subrange(0, resources@.len() as int) =~= resources@);
    }
    push_cursor(out, "resources", next_cursor);
    assert(entries_view(out@) =~= before + list_resources_spec(resources@, *next_cursor));
}

/// An argument of a prompt.
pub struct PromptArgInfo {
    pub name: String,
    pub description: Option<String>,
    pub required: Option<bool>,
}

/// A prompt, as the list of prompts shows it.
pub struct PromptInfo {
    pub name: String,
    pub description: Option<String>,
    pub arguments: Option<Vec<PromptArgInfo>>,
}

/// What one argument of a prompt shows.
pub open spec fn prompt_arg_spec(a: PromptArgInfo) -> Seq<EntryView> {
    seq![ev(3, LineView::Kv(a.name@, Seq::empty()))] + (if a.required == Some(true) {
        seq![ev(4, LineView::Note("[required]"@))]
    } else {
        Seq::empty()
    }) + match a.description {
        Some(x) => seq![ev(4, LineView::Text(x@))],
        None => Seq::empty(),
    }
}

/// What the arguments of a prompt show, in order.
pub open spec fn prompt_args_spec(args: Seq<PromptArgInfo>) -> Seq<EntryView>
    decreases args.len(),
{
    if args.len() == 0 {
        Seq::empty()
    } else {
        prompt_args_spec(args.drop_last()) + prompt_arg_spec(args.last())
    }
}

/// What one prompt shows.
pub open spec fn prompt_spec(p: PromptInfo) -> Seq<EntryView> {
    seq![ev(0, LineView::Heading(1, p.name@)), ev(0, LineView::Text(Seq::empty()))] + match p.description {
        Some(x) => lines_at(1, x@) + seq![ev(1, LineView::Text(Seq::empty()))],
        None => Seq::empty(),
    } + match p.arguments {
        Some(v) => if v@.len() > 0 {
            seq![ev(2, LineView::Heading(2, "Arguments"@))] + prompt_args_spec(v@)
        } else {
            Seq::empty()
        },
        None => Seq::empty(),
    } + seq![ev(0, LineView::Text(Seq::empty()))]
}

/// What each prompt shows, in order.
pub open spec fn prompts_spec(ps: Seq<PromptInfo>) -> Seq<EntryView>
    decreases ps.len(),
{
    if ps.len() == 0 {
        Seq::empty()
    } else {
        prompts_spec(ps.drop_last()) + prompt_spec(ps.last())
    }
}

/// What the list of prompts shows.
pub open spec fn list_prompts_spec(ps: Seq<PromptInfo>, cursor: Option<String>) -> Seq<EntryView> {
    (if ps.len() == 0 {
        seq![ev(0, LineView::Text("No prompts."@))]
    } else {
        prompts_spec(ps)
    }) + cursor_spec("prompts"@, cursor)
}

fn display_prompt_args(out: &mut Vec<Entry>, args: &Vec<PromptArgInfo>)
    ensures
        entries_view(final(out)@) == entries_view(old(out)@) + prompt_args_spec(args@),
{
    let ghost before = entries_view(out@);
    let mut i: usize = 0;
    while i < args.len()
        invariant
            i <= args@.len(),
            entries_view(out@) == before + prompt_args_spec(args@.subrange(0, i as int)),
        decreases args@.len() - i,
    {
        let a = &args[i];
        let ghost step = entries_view(out@);
        push_kv(out, 3, a.name.as_str(), "");
        match a.required {
            Some(true) => push_entry(out, 4, Line::Note(string_from_str("[required]"))),
            _ => {},
        }
        match &a.description {
            Some(x) => push_text(out, 4, x.as_str()),
            None => {},
        }
        proof {
            reveal_strlit("");
            assert(""@ =~= Seq::<char>::empty());
            assert(entries_view(out@) =~= step + prompt_arg_spec(*a));
            let next = args@.subrange(0, i + 1);
            assert(next.drop_last() =~= args@.subrange(0, i as int));
        }
        i = i + 1;
    }
    assert(args@.subrange(0, args@.len() as int) =~= args@);
}

fn display_prompt(out: &mut Vec<Entry>, p: &PromptInfo)
    ensures
        entries_view(final(out)@) == entries_view(old(out)@) + prompt_spec(*p),
{
    let ghost before = entries_view(out@);
    push_heading(out, 0, 1, p.name.as_str());
    push_text(out, 0, "");
    match &p.description {
        Some(x) => {
            push_lines(out, 1, x.as_str());
            push_text(out, 1, "");
        },
        None => {},
    }
    match &p.arguments {
        Some(v) => {
            if v.len() > 0 {
                push_heading(out, 2, 2, "Arguments");
                display_prompt_args(out, v);
            }
        },
        None => {},
    }
    push_text(out, 0, "");
    assert(Seq::<char>::empty() =~= ""@) by {
        reveal_strlit("");
    }
    assert(entries_view(out@) =~= before + prompt_spec(*p));
}

/// Shows the prompts a server offers.
pub fn list_prompts_result(out: &mut Vec<Entry>, prompts: &Vec<PromptInfo>, next_cursor: &Option<String>)
    ensures
        entries_view(final(out)@) == entries_view(old(out)@) + list_prompts_spec(
            prompts@,
            *next_cursor,
        ),
{
    let ghost before = entries_view(out@);
    if prompts.len() == 0 {
        push_text(out, 0, "No prompts.");
    } else {
        let mut i: usize = 0;
        while i < prompts.len()
            invariant
                i <= prompts@.len(),
                entries_view(out@) == before + prompts_spec(prompts@.subrange(0, i as int)),
            decreases prompts@.len() - i,
        {
            display_prompt(out, &prompts[i]);
            proof {
                let next = prompts@.subrange(0, i + 1);
                assert(next.drop_last() =~= prompts@.subrange(0, i as int));
            }
            i = i + 1;
        }
        assert(prompts@.subrange(0, prompts@.len() as int) =~= prompts@);
    }
    push_cursor(out, "prompts", next_cursor);
    assert(entries_view(out@) =~= before + list_prompts_spec(prompts@, *next_cursor));
}

/// A resource template, as the list of templates shows it.
pub struct TemplateInfo {
    pub name: String,
    pub uri_template: String,
    pub title: Option<String>,
    pub description: Option<String>,
    pub mime_type: Option<String>,
    pub annotations: Option<ContentAnnotations>,
}

/// What one resource template shows.
pub open spec fn template_spec(t: TemplateInfo) -> Seq<EntryView> {
    seq![ev(0, LineView::Heading(1, t.name@))] + opt_lines_at(1, t.description) + seq![
        ev(1, LineView::Kv("URI Template"@, t.uri_template@)),
    ] + kv_opt_at(1, "Title"@, t.title) + kv_opt_at(1, "MIME Type"@, t.mime_type)
        + opt_annotations_spec(1, 2, false, t.annotations) + seq![ev(0, LineView::Text(Seq::empty()))]
}

/// What each template shows, in order.
pub open spec fn templates_spec(ts: Seq<TemplateInfo>) -> Seq<EntryView>
    decreases ts.len(),
{
    if ts.len() == 0 {
        Seq::empty()
    } else {
        templates_spec(ts.drop_last()) + template_spec(ts.last())
    }
}

/// What the list of resource templates shows.
pub open spec fn list_templates_spec(ts: Seq<TemplateInfo>, cursor: Option<String>) -> Seq<EntryView> {
    (if ts.len() == 0 {
        seq![ev(0, LineView::Text("No resource templates."@))]
    } else {
        templates_spec(ts)
    }) + cursor_spec("resource templates"@, cursor)
}

fn display_template(out: &mut Vec<Entry>, t: &TemplateInfo)
    ensures
        entries_view(final(out)@) == entries_view(old(out)@) + template_spec(*t),
{
    let ghost before = entries_view(out@);
    push_heading(out, 0, 1, t.name.as_str());
    push_opt_lines(out, 1, &t.description);
    push_kv(out, 1, "URI Template", t.uri_template.as_str());
    push_kv_opt(out, 1, "Title", &t.title);
    push_kv_opt(out, 1, "MIME Type", &t.mime_type);
    display_opt_annotations(out, 1, 2, false, &t.annotations);
    push_text(out, 0, "");
    assert(Seq::<char>::empty() =~= ""@) by {
        reveal_strlit("");
    }
    assert(entries_view(out@) =~= before + template_spec(*t));
}

/// Shows the resource templates a server offers. A description is shown
/// line by line.
pub fn list_resource_templates_result(
    out: &mut Vec<Entry>,
    templates: &Vec<TemplateInfo>,
    next_cursor: &Option<String>,
)
    ensures
        entries_view(final(out)@) == entries_view(old(out)@) + list_templates_spec(
            templates@,
            *next_cursor,
        ),
{
    let ghost before = entries_view(out@);
    if templates.len() == 0 {
        push_text(out, 0, "No resource templates.");
    } else {
        let mut i: usize = 0;
        while i < templates.len()
            invariant
                i <= templates@.len(),
                entries_view(out@) == before + templates_spec(templates@.subrange(0, i as int)),
            decreases templates@.len() - i,
        {
            display_template(out, &templates[i]);
            proof {
                let next = templates@.subrange(0, i + 1);
                assert(next.drop_last() =~= templates@.subrange(0, i as int));
            }
            i = i + 1;
        }
        assert(templates@.subrange(0, templates@.len() as int) =~= templates@);
    }
    push_cursor(out, "resource templates", next_cursor);
    assert(entries_view(out@) =~= before + list_templates_spec(templates@, *next_cursor));
}

} // verus!
