# videocall

The logic of a video-call system, written in Verus: executable Rust whose
behaviour is stated in contracts and proved.

## Layout

- `src/` — the verified library.
  - `framing`, `stream_writer`: packets on a WebTransport stream, and the writer
    that sheds a packet rather than wait for a receiver that has stalled.
  - `feed_stream`: the events that tell a client of changes to the meeting feed.
  - `jmap`, `conversation`: the requests to the chat server, what its answers
    say, and the search for the conversation of a meeting.
  - `chat_message`, `chat_sidebar`: the messages of a chat, how news are merged
    into them, and the state of the chat panel.
  - `theme_color`, `theme_file`: theme files, which colours they may set, and what
    they change on a page.
  - `screen_share_dom`: zoom, pan and detaching of shared content, as lists of
    changes to the page.
  - `meeting_state`, `proctor`: who is in a meeting and how well, and the terminal
    that shows it.
  - `text`, `json`, `clock`: what the others build on, and the calls into
    `serde_json` and `chrono`.
- `tests/` — tests on concrete values.
- `app/` — the programs around the library: input, output, drawing, waiting, the
  reading of theme files into their schema, and the arithmetic on floating-point
  numbers.

Each module ends with its laws: proof functions that state what holds of the
module as a whole.

## What is trusted

The functions marked `external_body`, the `assume_specification` items and the
specification functions without a body are believed. Each stands for one function
of `serde_json`, `chrono`, `base64`, `uuid` or the standard library, and says above
it what it claims.
