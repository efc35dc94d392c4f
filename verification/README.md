# yit

git for YouTube: each playlist lives in its own directory, tracked by a local
`.yit/yithub.db`. `yt-dlp` lists and downloads the tracks.

```
yit clone <url>   clone a remote playlist into a new directory
yit init <url>    turn the current directory into a tracked playlist
yit status        show a summary of local vs remote playlist state
yit diff          show detailed changes between local and remote playlist state
yit sync          fetch remote changes and download new tracks
yit pull          alias for sync
yit untrack       stop tracking (removes .yit/, keeps downloaded files)
yit serve         serve the playlist over HTTP on your local network
```

## Layout

- `src/` is the library, verified with Verus: playlist ids (`youtube`), the
  comparison of the local track table with a fetched playlist and the rows a
  sync writes (`playlist`), the `status` counts (`status`), the served page
  (`web`), Google sign-in helpers (`auth`, `api`), paths and configuration
  (`paths`, `db`, `config`), messages (`error`, `commands`), text helpers
  (`text`), and properties that span several functions (`laws`).
- `app/` is the program: argument parsing, SQLite, the HTTP server, the
  `yt-dlp` runs and the network calls, each handing plain values to the
  library.
- `tests/` runs the library on concrete values.
