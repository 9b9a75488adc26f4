# shadowreplay

Rules for recording, recovering and exporting live streams, verified with Verus.

A recorder watches a room, notices when a live starts and ends, writes its media and its chat to
disk, and exports the whole session when it is over. What can go wrong on the way (a poll that
fails, a torn write, a process that is killed, an export that is interrupted) must not lose an
event, end a live early, or leave half a video under its final name. The library states and proves
those rules; it opens no socket and no file.

## Layout

- `src/` is the verified library.
  - Foundations: `text`, `digits`, `json`, `sorting`, `paths`.
  - Chat: `wire` (frames and events), `connection` (the socket), `events` and `storage` (the event
    file), `ledger` (which events are stored), `export`, `highlights`.
  - Sessions: `platform`, `response` and `api` (the platform's replies), `markers` (session files),
    `session` (the state of a recorder), `poll` (what a poll does), `attempt` (starting a recording).
  - Recordings: `playlist`, `concat` and `multi_clip` (clips of several parts), `hls`, `rows`,
    `archive`, `migration`.
  - The manager: `manager`, `removal` (of a recorder), `dispatch`, `resolve` (the session of an
    ended live), `whole`, `whole_task` and `whole_clip` (session exports), `clips`, `subtitle`,
    `video_editing`.

  Functions that make or judge paths take the system as an argument: Windows, or any other.
- `tests/` runs the library on concrete values.
- `app/` is the program around it: sockets, files, tasks, processes and the clock. Work that
  alternates with decisions is a state machine in `src/`; `app/` performs its steps and hands back
  what happened.

Properties that span several functions are the public `law_*` proof functions. Calls into other
crates stand behind small trusted functions whose doc comments say what is believed of them.
