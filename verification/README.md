# tpt-focus

Unified Notification & Focus Center: rules decide which desktop notifications
come up, which are muted and which wait in a digest; focus profiles and
recurring schedules change what the rules see; a searchable history keeps what
came in.

- `src/` is the engine, written in Verus. Functions state what they return or
  change, and Verus proves it. The properties that hold across functions (a leading rule
  decides, pruning keeps the newest, what is stored reads back, ...) are public
  proof functions next to the definitions they speak of. Calls into `chrono`,
  `uuid`, `serde_json` and `std` that Verus cannot read stand behind small
  functions whose doc comments say what is taken for granted.
- `tests/` runs the engine on concrete values, the stored statements against a
  real in-memory SQLite database among them.
- `app/` is the program around it: the command line, the configuration and
  database files, the notification source and the foreground of each desktop,
  the tray icon and the popup window.

| Module | What it holds |
| --- | --- |
| `model`, `clock`, `text`, `number`, `glob`, `sorting` | notifications, instants, texts, numbers, patterns, stable order |
| `rules`, `config`, `profile`, `schedule`, `context` | what decides about a notification |
| `engine`, `runtime`, `digest`, `source` | the pipeline and what it holds back |
| `storage`, `rows`, `sql`, `tables` | the history: entries, stored rows, statements, and what the statements mean |
| `platform` | the session bus, X11 and wlroots, WinRT and Win32, notification access |
| `cli` | what each subcommand decides and prints |
| `tray` | the popup's state and pages, the tray menu and icons |

Called as `tpt-focus-tray` the program shows the tray icon and the popup window;
under any other name it is the command line.
