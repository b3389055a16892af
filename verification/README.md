# lep

Local Echo Proxy: shows what is typed over a slow connection at once, and takes
it back if the server says otherwise. Nothing has to be installed on the server.

The library under `src/` is written in Verus: its functions are proved against
their contracts. What is not proved is the calls into other crates and the
standard library: each stands in a small wrapper that says what is taken for
granted.

| Module | What it does |
|--------|--------------|
| `command` | A prediction: the bytes that show it and the bytes that undo it |
| `prediction` | The queue of predictions, and what server output says of them |
| `emulator` | The server's screen together with the queue and the measurements |
| `screen`, `osc` | The terminal grid of `alacritty_terminal`, and what it is fed |
| `adaptive` | When to predict and when to underline, from round trip times |
| `alt_screen` | Watches for the switch to the alternate screen |
| `output`, `utf8`, `ansi` | Printed characters, UTF-8 and escape sequences |
| `server_buffer` | Holds back a character that arrived only in part |
| `input` | Turns typed bytes into characters and predictions |
| `session` | What is written to the terminal on each event |
| `echo` | What becomes of typed text when the server answers it |
| `cli`, `logging`, `terminal`, `text`, `clock` | Command line, log levels and stamps, window size, text, time |

Times are nanoseconds. The functions that read the clock come in pairs: one that
reads it, and one whose name ends in `_at` and which takes the time.

`app/` is the program around the library: the pseudo-terminal, raw mode, signals,
the poll loop and the log.

## Prediction modes

| Mode | |
|------|-|
| `auto` (default) | Measures round trips, predicts when they are slow, and not on the alternate screen |
| `always` | Predicts always, underlined |
| `never` | Pure passthrough |
