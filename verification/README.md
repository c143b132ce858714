# Shard

A terminal download manager: files are fetched in chunks side by side, transfers can be paused and
resumed, a daemon keeps the queue, and a terminal interface shows it.

The logic is written in Verus and proved against its contracts; the program around it is ordinary
Rust.

* `src/` is the library. It decides: how a file is split and what is left to fetch
  (`downloader`), what becomes of a job (`queue`), how requests are answered and subscribers kept up
  to date (`daemon`, `ipc`), what the command line and the keys of the interface do (`cli`, `ui`),
  how rows and timestamps are read (`db`), and every text that is shown. The properties that span
  several functions are public proof functions whose names begin with `law_`.
* `app/` is the program. It owns the sockets, the files, the database, the terminal, the HTTP client
  and the locks: it reports what happened to the library and does what the library says next.
* `tests/` runs the library.

Paths and messages are held as text, moments as nanoseconds on the monotonic clock. The share of a
file that is downloaded is a floating-point number, which the program computes from the two byte
counts that the library keeps.
