use libmcptool::command::{generate_repl_help, mcp_command_summaries};

#[test]
fn test_generate_repl_help() {
    let help = generate_repl_help();

    // Check that the help contains expected sections
    assert!(help.contains("Available MCP commands:"));
    assert!(help.contains("Additional REPL commands:"));
    assert!(help.contains("help"));
    assert!(help.contains("quit/exit"));

    // Check that some of the MCP commands are included
    assert!(help.contains("ping"));
    assert!(help.contains("listtools"));
    assert!(help.contains("init"));

    // Check that the help is not empty
    assert!(!help.is_empty());
}

#[test]
fn repl_help_lines_are_padded_to_twenty_columns() {
    let help = generate_repl_help();
    assert!(help.starts_with("Available MCP commands:\n\n  ping                 - Send a ping request to an MCP server\n"));
    assert!(help.contains("  listresourcetemplates - List all MCP resource templates from a server\n"));
    assert!(help.ends_with(
        "\nAdditional REPL commands:\n  help                 - Show this help message\n  quit/exit            - Exit the REPL\n"
    ));
}

#[test]
fn command_summaries_list_every_command_once() {
    let table = mcp_command_summaries();
    assert_eq!(table.len(), 13);
    assert_eq!(table[0].0, "ping");
    assert_eq!(table[12].0, "complete");
}
