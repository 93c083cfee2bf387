# herdr_labels

Process-aware tab naming and numbering for Herdr sessions, as a library that is verified with
Verus, and a small program around it.

Herdr runs the program for plugin events and shell hooks. Each run reconciles the labels of the tabs
that its event is about: a tab shows its position in its workspace and, unless the user has named
it, the program that runs in it.

## Layout

- `src/` is the library. It decides everything and does no input or output. Whatever happens outside
  is a step that the library asks for: `reconciliation` goes through one pass over a session,
  `runner` runs one invocation with its waits, its lock and its passes. A caller performs a step and
  resumes it with what came of it.
- `app/` is the program: the environment, the files of a session, the socket, and the loops that
  perform the steps.
- `tests/` runs the library against scripted sessions.

The library's modules, from policy to scheduling:

| Modules | Subject |
| --- | --- |
| `text`, `table`, `sequences`, `filesystem` | texts, keyed lists, selections, paths |
| `naming`, `numbering` | labels of programs, numbers of tabs |
| `settings`, `config` | user settings, invocations, the directory of a session |
| `herdr` | requests and responses of the socket API |
| `state` | who owns a tab's label, renames that are under way, panes and their tabs |
| `process_selection`, `targeting`, `tab_naming` | which process, pane and tab an event is about |
| `tab_reconciliation`, `reconciliation` | one tab, one pass |
| `lock`, `runner` | waiting, rerun requests, one invocation |
| `process_record`, `tab_decision`, `tab_trace`, `telemetry` | diagnostic records |
| `pass_laws`, `pass_chain`, `idempotence`, `runner_laws`, `wait_laws` | what holds of every pass and invocation |

## What is proved

Every function states what it returns. Beyond that, among others:

- a label of the user's is never replaced by a name of the plugin's;
- a tab is renamed only right after it was read with the label that the rename was decided for, and
  a rename of the plugin's own is stored before it is sent;
- handling an event again, once it has settled every tab it is about and the session shows the
  labels it left, looks at panes as before, but reads and renames no tab and leaves the stored state
  as it is;
- an event that nothing interferes with sends exactly the renames to the labels that it leaves;
- the requests that a process leaves behind are taken in the order it made them in;
- a pass asks for a bounded number of things, and an invocation runs a bounded number of passes and
  waits for a bounded time in all;
- a stored state that is damaged or of another version is reported, and never replaced by an empty
  one;
- a pass runs under the session lock, nothing is waited for under it, and it is released in the end.

## What is trusted

The library calls `sha2` for the digest that names a session's directory, `serde_json` for the text
of a request, and a few functions of the standard library. Each such call is a single item with a
contract of its own, and says in its comment what it takes for granted.
