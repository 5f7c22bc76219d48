# rsplayer

The decision-making core of a music player, verified with Verus.

`src/` is the verified library:

- `queue` — the playback queue: songs stored by file in key order, the play
  order, the current song, next / previous / random moves, pages, and
  restoring a stored queue.
- `playlists` — dynamic playlists by genre, artist, date and folder, saved
  playlists, playlist identifiers and the library songs they name.
- `mpd_response`, `mpd_client` — reading MPD responses into songs, mapping
  MPD songs and states, the queue page at the current song, searched queue
  pages, the MPD configuration text.
- `device` — choosing the rate and channel count a device needs, and the
  rates to fall back to.
- `playback` — the decoding loop of one song (`play_step`) and the queue's
  playback loop (`queue_loop_step`) as step functions, retries, seeking,
  stored play positions, track choice, and splitting, joining and mapping
  the channels of interleaved samples.
- `ui_control` — the web interface's decisions: keyboard shortcuts
  (`shortcut_for`) and its state machine (`ui_step`) for volume and mute,
  seeking, dialogs, navigation with unsaved changes, the visualizer cycle and
  the playback set-up.
- `settings_edit` — the settings page's edits: choosing the audio interface,
  adding and removing network mounts with their music directories, filter
  types.
- `dsd`, `audio_source`, `ui`, `text`, `song` — DSD sample words, source
  paths, display formatting, and the text and song models the rest builds on.

The laws the library proves are the `law_*` proof functions in `queue`,
`playlists`, `device`, `playback`, `ui_control`, `settings_edit` and `dsd`.

`app/` holds what stays outside the proofs: the sled-backed queue store, MPD
sockets and connections, the audio device and output traits, the drivers of
the playback loop, opening songs and the decoding loop (symphonia) and the web interface's
event loop, the player controls, and the floating-point lyrics and
level-meter code.

`tests/` exercises the library on concrete values.
