# rocksdb_mcp

The verified core of a Streamable-HTTP MCP server that gives a read-only view
of a RocksDB database (two tools: `list_column_families` and `get_value`).

- `src/` is verified with Verus:
  - `encoding`, `hex_text`, `base64_text`: the utf8 / hex / base64 text forms of keys and
    values, with round-trip guarantees;
  - `config`: settings, their validation, the listen address, interval parsing;
  - `auth`: the bearer-token check and the answers to refused requests;
  - `db`: column-family fallback, open options and targets, lookup answers;
  - `server`: the two tools' answers and how failures are classified;
  - `refresh`: the decisions of the secondary catch-up task;
  - `text`: decimal numerals.
- `app/` is the program around it: command-line parsing, opening and reading
  RocksDB, the HTTP middleware, the MCP handler and the refresh task.
- `tests/` exercises the library.
