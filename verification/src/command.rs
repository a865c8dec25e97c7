use vstd::prelude::*;

use crate::text::{pad_right, push_padded, push_str, string_from_str};

verus! {

/// Options for MCP commands run from the shell.
pub struct McpArgs {}

/// The MCP commands, usable from the shell with a target and inside the REPL.
pub enum McpCommand {
    /// Send a ping request to an MCP server
    Ping,
    /// List all MCP tools from a server
    Listtools,
    /// Initialize connection and display server information
    Init,
    /// List all MCP resources from a server
    Listresources,
    /// List all MCP prompts from a server
    Listprompts,
    /// List all MCP resource templates from a server
    Listresourcetemplates,
    /// Set the logging level on the MCP server
    Setlevel {
        /// The logging level to set (debug, info, notice, warning, error, critical, alert, emergency)
        level: String,
    },
    /// Call an MCP tool with various input modes
    Calltool {
        /// Name of the tool to call
        tool_name: String,
        /// Arguments in key=value format (can be specified multiple times)
        args: Vec<String>,
        /// Interactive mode: prompt for each tool parameter
        interactive: bool,
        /// JSON mode: read arguments from stdin as JSON
        json: bool,
    },
    /// Read a resource by URI
    Readresource {
        /// URI of the resource to read
        uri: String,
    },
    /// Get a prompt by name with optional arguments
    Getprompt {
        /// Name of the prompt to get
        name: String,
        /// Arguments in key=value format (can be specified multiple times)
        args: Vec<String>,
    },
    /// Subscribe to resource update notifications
    Subscriberesource {
        /// URI of the resource to subscribe to
        uri: String,
    },
    /// Unsubscribe from resource update notifications
    Unsubscriberesource {
        /// URI of the resource to unsubscribe from
        uri: String,
    },
    /// Get completion suggestions for prompt or resource arguments
    Complete {
        /// Reference to complete (e.g., "resource://uri" or "prompt://name")
        reference: String,
        /// Name of the argument to complete
        argument: String,
    },
}

/// An MCP command run from the shell against a target.
pub struct CliMcpCommand {
    /// The MCP server target (e.g., "localhost:3000", "tcp://host:port", "http://host:port", "auth://name")
    pub target: String,
    /// The command to run.
    pub command: McpCommand,
}

/// An MCP command typed into the REPL, which reuses its connection.
pub struct ReplCommandWrapper {
    /// The command to run.
    pub command: McpCommand,
}

/// The name of each MCP command, as typed, and what it does.
pub open spec fn command_summaries_spec() -> Seq<(Seq<char>, Seq<char>)> {
    seq![
        ("ping"@, "Send a ping request to an MCP server"@),
        ("listtools"@, "List all MCP tools from a server"@),
        ("init"@, "Initialize connection and display server information"@),
        ("listresources"@, "List all MCP resources from a server"@),
        ("listprompts"@, "List all MCP prompts from a server"@),
        ("listresourcetemplates"@, "List all MCP resource templates from a server"@),
        ("setlevel"@, "Set the logging level on the MCP server"@),
        ("calltool"@, "Call an MCP tool with various input modes"@),
        ("readresource"@, "Read a resource by URI"@),
        ("getprompt"@, "Get a prompt by name with optional arguments"@),
        ("subscriberesource"@, "Subscribe to resource update notifications"@),
        ("unsubscriberesource"@, "Unsubscribe from resource update notifications"@),
        ("complete"@, "Get completion suggestions for prompt or resource arguments"@),
    ]
}

/// The mathematical value of a list of name and description pairs.
pub open spec fn summaries_view(v: Seq<(&str, &str)>) -> Seq<(Seq<char>, Seq<char>)> {
    v.map_values(|p: (&str, &str)| (p.0@, p.1@))
}

/// The name of each MCP command, as typed, and what it does, in the order
/// the commands are declared.
pub fn mcp_command_summaries() -> (v: Vec<(&'static str, &'static str)>)
    ensures
        summaries_view(v@) == command_summaries_spec(),
{
    let v = vec![
        ("ping", "Send a ping request to an MCP server"),
        ("listtools", "List all MCP tools from a server"),
        ("init", "Initialize connection and display server information"),
        ("listresources", "List all MCP resources from a server"),
        ("listprompts", "List all MCP prompts from a server"),
        ("listresourcetemplates", "List all MCP resource templates from a server"),
        ("setlevel", "Set the logging level on the MCP server"),
        ("calltool", "Call an MCP tool with various input modes"),
        ("readresource", "Read a resource by URI"),
        ("getprompt", "Get a prompt by name with optional arguments"),
        ("subscriberesource", "Subscribe to resource update notifications"),
        ("unsubscriberesource", "Unsubscribe from resource update notifications"),
        ("complete", "Get completion suggestions for prompt or resource arguments"),
    ];
    assert(summaries_view(v@) =~= command_summaries_spec());
    v
}

/// One line of the command list: the name padded to twenty columns, then
/// the description.
pub open spec fn help_line(name: Seq<char>, about: Seq<char>) -> Seq<char> {
    "  "@ + pad_right(name, 20, ' ') + " - "@ + about + "\n"@
}

/// The lines of the command list, in order.
pub open spec fn help_lines(t: Seq<(Seq<char>, Seq<char>)>) -> Seq<char>
    decreases t.len(),
{
    if t.len() == 0 {
        Seq::empty()
    } else {
        help_lines(t.drop_last()) + help_line(t.last().0, t.last().1)
    }
}

/// The REPL's help text.
pub open spec fn repl_help_spec() -> Seq<char> {
    "Available MCP commands:\n\n"@ + help_lines(command_summaries_spec())
        + "\nAdditional REPL commands:\n"@ + "  help                 - Show this help message\n"@
        + "  quit/exit            - Exit the REPL\n"@
}

/// Generates the help text for the REPL: every MCP command with what it
/// does, then the REPL's own commands.
pub fn generate_repl_help() -> (help: String)
    ensures
        help@ == repl_help_spec(),
{
    let mut help = string_from_str("Available MCP commands:\n\n");
    let table = mcp_command_summaries();
    let ghost t = summaries_view(table@);
    let mut i: usize = 0;
    while i < table.len()
        invariant
            i <= table@.len(),
            t == summaries_view(table@),
            help@ == "Available MCP commands:\n\n"@ + help_lines(t.subrange(0, i as int)),
        decreases table@.len() - i,
    {
        let (name, about) = table[i];
        push_str(&mut help, "  ");
        push_padded(&mut help, name, 20, ' ');
        push_str(&mut help, " - ");
        push_str(&mut help, about);
        push_str(&mut help, "\n");
        assert(t.subrange(0, i + 1).drop_last() =~= t.subrange(0, i as int));
        i = i + 1;
    }
    assert(t.subrange(0, table@.len() as int) =~= t);
    push_str(&mut help, "\nAdditional REPL commands:\n");
    push_str(&mut help, "  help                 - Show this help message\n");
    push_str(&mut help, "  quit/exit            - Exit the REPL\n");
    help
}

} // verus!
