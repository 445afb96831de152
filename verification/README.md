# codex_pacer

The bookkeeping of token usage behind Codex session logs: which log files must be read, what their
lines say, how much of it is new, and what the store must hold afterwards.

`src/` is the library. Every decision is stated as a contract and proved with Verus: the reading
of logs from the start or from a checkpoint, the recognition of readings that a forked session
copied from its parent, the billing of growth alone, the reduction of rate-limit histories, the
choice of files, repairs and links in a scan, and the filling in of stored times.

`app/` is the importer around it: it walks the directories, reads the files, keeps what was read
in SQLite, and asks the library what to do. The schema, the settings and the prices come from the
application that uses it, through the trait `Host`.

`tests/` runs the library on concrete values.

| module | subject |
| --- | --- |
| `usage` | growth of token counts, high water, usage events |
| `session_log`, `session_log_laws` | what a log says, in full or from a checkpoint |
| `replay`, `replay_reader`, `replay_cache` | what a forked session copied |
| `replay_laws` | why keeping parents' readings changes no result |
| `rate_limits`, `local_time` | rate limits in log records, and local times |
| `database` | usage events, rate-limit histories and times in the store |
| `import_state`, `scan_files`, `incremental`, `recent_days`, `scan_plan`, `repairs`, `prepared` | scans |
| `file_import`, `scan_commit` | the steps of a scan, file by file, and of its commit |
| `scan_laws` | what holds of scans as a whole |
| `topology` | how sessions hang together |
| `codex_home`, `paths`, `file_order`, `session_id`, `session_index` | directories, file names, their order, and titles |
| `json`, `numbers`, `timestamps`, `text`, `text_map`, `capacity`, `estimates`, `models` | what the rest stands on |
