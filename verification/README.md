# velocity_downloader

The verified core of a segmented download manager for Windows, written in Verus.

`src/` is the library. Every function in it carries a contract that Verus proves:

- `engine`, `tasks`, `transfer`: how a download is split into segments, how a task
  changes as it is started, paused, restored, resumed and finished, and what the engine
  reads from HTTP responses (sizes, ranges, file names, redirects, refusals, retries).
- `planning`, `probing`, `queue`, `schedule`: how a link is probed (the HTTP probe order,
  and the yt-dlp runs that look for a media page's formats), how a new download is
  planned from its probes, how the scheduler queue is started and stopped, when a hidden
  pre-download may be put in place, and when the scheduler acts.
- `media`, `formats`: the yt-dlp command lines, and the quality choices offered for a
  media page.
- `naming`, `settings`, `messaging`, `listing`, `selection`, `versions`: file names,
  settings forms, the browser extension's messages, the download list, and updates.
- `text`, `numbers`, `paths`, `urls`, `models`: the text, number and path primitives the
  rest is stated over.

Public proof functions state the laws that hold across calls (for instance that the
planned segments partition the file, or that a selection text reads back to the ids it
was written from).

`app/` is the plain Rust around it: the native-messaging host, files on disk, HTTP
transfers with reqwest, running yt-dlp, and what involves floating point (speeds,
percentages, sizes in binary units).

`tests/` runs the library on concrete values.
