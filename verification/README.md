# tauri-shell

A [Tauri](https://tauri.app/) shell rendered by [Servo](https://servo.org/). It owns OS windows
and nothing else: the application runs as a Node sidecar that the shell spawns, and the frontend
is read off disk at runtime.

`src/` is the shell's logic, verified with [Verus](https://github.com/verus-lang/verus):

| module     | what it decides                                                                   |
| ---------- | --------------------------------------------------------------------------------- |
| `frontend` | which file a request asks for, what is refused, and what is answered               |
| `config`   | the scheme, the frontend directory, the name, page addresses                       |
| `window`   | labels, event lines, how a requested window is opened, actions on an open window   |
| `sidecar`  | the line protocol, finding and launching the sidecar, when the shell may end       |
| `color`    | colours written as `#rrggbb` and `#rgb`                                            |
| `address`  | parsing a page address, with the `url` crate                                       |
| `text`     | the vocabulary of texts that the contracts use                                     |

Three calls are trusted and not proved: `Url::parse` of `url`, and `from_utf8` and
`from_utf8_lossy` of the standard library. Lengths of windows are a type parameter there, so no floating-point number is reasoned about.
The functions named `law_...` state what holds across functions; each is proved.

`app/` is the program: it reads the environment, spawns the sidecar, reads its output, serves
files and drives the engine, and asks the library what to do.

| variable                    | default                                       | meaning                                     |
| --------------------------- | --------------------------------------------- | ------------------------------------------- |
| `TAURI_SHELL_FRONTEND_DIR`  | `dist/renderer`                               | directory served at `<scheme>://localhost/` |
| `TAURI_SHELL_SIDECAR_ENTRY` | `../dist/sidecar/index.js`, then exe-relative | the sidecar's entry point                   |
| `TAURI_SHELL_SIDECAR_NODE`  | `node`                                        | the node binary to spawn it with            |
| `TAURI_SHELL_SCHEME`        | `app`                                         | the scheme the frontend is served under     |
| `TAURI_SHELL_APP_NAME`      | `Tauri Shell`                                 | the name the OS shows for the process       |
