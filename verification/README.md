# jbotci

The verified core of jbotci, a command-line and web toolkit for Lojban.

- `src/` is the library, written in Verus: every public function carries a contract,
  and all of its code is proved. It holds what the commands decide and render — option checks, trace
  specifications, dictionary cards and their wrapping, word analyses, gismu tables,
  the grammar book's requests, benchmark statistics, exact byte counts — and the
  web front end's state and view logic (routes, links, storage formats written and
  read back through `serde_json`, the lujvo builder's pane, reference markers), as
  well as the language server's token encoding. Laws that span several functions are public proof functions named
  `law_*`.
- `tests/` runs the library on concrete values.
- `app/` is the `jbotci` program around the library: argument parsing, terminals,
  files, the benchmark timer, the language server's transport, and the calls into
  the project's parsing, dictionary, grammar-book and embedding engines.
