# char_core

The decision-making core of the `char` meeting assistant, written in Verus: the
functions in `src/` carry `requires`/`ensures` contracts that Verus proves, except four
small trusted wrappers whose contracts Verus takes on trust because they call code it
does not read:

- `text::push_char` (`String::push`),
- `text::to_lowercase` (`str::to_lowercase`, whose result is named `lowercase`),
- `calendar::find_first_match` (`regex::Regex::new` and `Regex::find`, named
  `regex_first_match`),
- `chat::new_message_id` (`uuid::Uuid::new_v4` formatted with `to_string`).

`session_files` also declares `serde_json::Value` so that it can carry such values.

- `src/` — the verified library: calendar sync planning, the command palette, the
  terminal screens as state machines (chat, meeting view, timeline, meetings list,
  model picker, update prompt, entry screen), the listening session's supervisor and
  audio routing, voice-activity chunking, session files, settings, the inference proxy's
  routes, and the repository's task runner. Public `law_*` proof functions state the
  properties that hold across calls.
- `tests/` — tests of the library on concrete values.
- `app/` — the `char` command line around the library: the SQLite database, file and
  network I/O, the proxy server, floating-point audio measurements and the task runner's
  processes.
