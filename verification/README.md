# channel_copier

Copies a Telegram channel into another one, post by post, each with the comments
under it, and remembers where it stopped.

- `src/` is the library: the decisions and computations, verified with Verus.
  Talking to the server, the database and the user is not part of it. Each of the
  long-running activities is a state with a step function: it takes what came in
  and says what to do next.

  Four things are done by other crates, called behind contracts that Verus
  believes without proof: taking reserved characters out of a file name
  (`regex`), the table of channels (`scc`), the length of a rest (`rand`), and
  reading a stored channel (`grammers-session`).
  - `posts`, `comments`, `discussion`: copying a channel, the comments under a
    post, and finding where those comments are.
  - `page`, `message`: which messages of a page are copied, and which of them
    are sent together.
  - `chat`, `cursor`, `peer`: where reading resumes and how a chat is addressed.
  - `transfer`, `outbox`: files that have to be downloaded and uploaded again.
  - `retry`, `sign_in`, `text`, `config`: the rest.
- `app/` is the program around it.
- `tests/` runs the library on concrete values.

The laws of the library are the public proof functions named `law_*`.
