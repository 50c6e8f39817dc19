# logweb

A verified core for a small log pipeline: a journal forwarder buffers
records and streams them to a sink, the sink stores them in SQLite, and a
browser serves them over HTTP.

- `src/` is the library, verified with Verus: the record format (`codec`),
  the bounded record buffer (`store`), rule-based level classification
  (`classify`, `level`, `pattern`, `chars`), batching, sending and pacing
  policies (`batch`, `sender`, `pacing`, `wake`), journal entry handling
  (`journal`), the sink's write planning (`insert_plan`) and the browser's
  request handling (`logs_query`, `query_result`).
- `app/` holds the programs around it: sockets, threads, SQLite, HTTP and
  the systemd journal.
- `tests/` exercises the library on concrete values.
