# lean4-mcp-proxy

An MCP (Model Context Protocol) server that lets an agent work with Lean 4:
open files, wait for diagnostics, ask for proof goals, and edit documents. It
speaks newline-delimited JSON-RPC on standard input and output, and talks to one
Lean language server for each Lake workspace.

The logic of the server is a library that is verified with Verus. It holds all
the state and decides everything, and does no input or output itself:

- `McpServer::run` takes a line that was read and says what is to be done;
- `McpServer::resume` takes what came of that and says what is to be done next,
  until the request is answered;
- `McpServer::receive` takes a message of a language server.

`app/` is the program around it: it reads lines, starts language servers, reads
and writes files, waits, and does nothing else.

## The library

| Module | What it holds |
|--------|---------------|
| `text`, `names`, `table` | texts, numbers in decimal, values by name |
| `json`, `jsonrpc`, `messages` | JSON values, JSON-RPC messages, the parameters of each message |
| `framing`, `reader` | the headers before a message of the language server, and reading messages out of its bytes |
| `uri`, `lsp`, `document` | URIs and paths, diagnostics and documents, edits by line and character |
| `client_model`, `lean_client`, `client_laws` | the connection to one language server |
| `tools` | the tools, and how their arguments are read |
| `steps` | what is asked to be done outside, and what comes back |
| `server_model`, `client_manager`, `mcp_server`, `server_laws` | the server |

A `..._model` module says in mathematical terms what the code in its
neighbours does; a `..._laws` module states what follows for several steps in a
row, such as that a document that was edited is read as it was edited, or that
every request is answered once and with its own id.

Parsing and printing of JSON are left to `serde_json`. What is believed of it,
and of the few functions of the standard library that are used without a proof,
stands in `json` and `text` beside the functions that make the calls.

## Running

`--lake-project <path>` or the variable `LAKE_PROJECT` names the Lake project to
use for files in which none is found. `LEAN_BIN` and `LAKE_BIN` name the programs
to start, and `RUST_LOG` sets how much is logged to standard error.
