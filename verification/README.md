# libmcptool

A command-line client for MCP servers, with its core verified by Verus.

- `src/` is the verified library: parsing of targets (`tcp://`, `http://`,
  `https://`, `cmd://`, `auth://` and bare `host:port`), of `key=value`
  arguments and of JSON argument input, the interactive parameter prompt, the
  decisions of the two consoles (the MCP REPL and the test server's console),
  the OAuth helpers (base URL, callback checking, token status), and the
  layout of everything the program prints, as lists of entries. Each public
  function states what it returns in its contract; the laws that relate
  several functions are public proof functions.
- `app/` is the program around it: command-line parsing, the terminal,
  files, the network and the MCP client and server, which hand the library
  plain values and show what it lays out.
- `tests/` runs the library on concrete inputs.
