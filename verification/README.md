# zellij-vertical-tabs (verified core)

A vertical tab sidebar for zellij whose logic is verified with Verus.

- `src/` is the library: width-safe truncation (`trunc`, which cuts
  character by character, shortens the cut further when the whole of it
  measures wider, and never exceeds its column budget), the clamped
  viewport (`scroll_window`), the `rescue-mark` pipe parser
  (`parse_rescue_mark`), and the sidebar `State`: how it reacts to zellij's
  events and pipes (`State::update`, `State::pipe`), the tab manifest it asks
  to write, and the text of every row it renders (`State::render`, with the
  date and clock of the given instant in the configured zone). Each
  public function states its result exactly; the laws of the sidebar (the
  focused tab is always in view, hidden instances park their clock, a dead
  tick chain heals, rescue marks stay bounded, ...) are proof functions next
  to the code they speak of.
- `app/main.rs` is the plugin shell: it converts zellij's events, reads the
  current time, writes the manifest file and prints the rendered rows.
- `tests/` runs the library against the layout the plugin draws and the
  scenarios its documentation describes.

The sidebar has one mode only: of the plugin's settings it reads `timezone`;
there is no picker mode, and a `mode` setting is not read.
