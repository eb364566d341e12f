# macos_utilities

An OpenDeck / Stream Deck plugin for macOS: media keys (previous, next,
play/pause), volume up/down and mute, and infobar items that show what is
playing, the next calendar event and the battery.

## Layout

- `src/` is the library, verified with Verus. It holds the plugin's state
  machine (`plugin`), the decisions behind each refresh and the refresh
  scheduler (`sync`), the settings (`settings`), the messages sent to the host
  (`protocol`), the readers of what `osascript`, `pmset` and the Music app
  answer (`applescript_fallback`, `calendar`, `system_media`), the texts drawn
  on the infobar (`infobar`), and the string and map helpers they rest on
  (`text`, `context_map`, `encoding`).
- `app/` is the program around it: the WebSocket connection, the tools and
  system calls it runs on macOS, and the drawing of the infobar images, which
  works in floating point.
- `tests/` runs the library on concrete inputs.

The drawing code reads its font from `fonts/Roboto-Regular.ttf` beside the
executable, as the plugin folder ships it.
