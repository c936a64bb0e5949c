# pen

`pen` suspends and restores [herdr](https://herdr.dev) workspaces. It saves what a
workspace consists of as a TOML file, closes the workspace, and builds it again when
it is needed.

- `src/` is the library, verified with Verus. It holds every decision that a command
  takes, as a machine: `session::run` begins a command, `Session::step` goes on from
  what came of the last action. `guarantees` states what holds of every command.
- `app/` is the program around it: the socket, the definition files, the terminal and
  fzf.
- `tests/` runs whole commands against prepared replies, and the parts one by one.

## Usage

```sh
pen save
pen close
pen picker
```

In the picker, Space closes a running workspace or restores a stopped one and keeps the
list open, without moving the focus. Enter does the same and ends the picker, with the
restored workspace in front. Esc leaves it.

Closing never discards anything silently: a workspace that is not saved asks
save / discard / cancel, one that differs from its saved definition asks
update / discard / cancel, and one that is as it was saved closes without a question.

| Variable | Default | Purpose |
| --- | --- | --- |
| `PEN_CONFIG_DIR` | `~/.config/pen` | Directory of the definitions |
| `PEN_SOCKET` | `~/.config/herdr/herdr.sock` | herdr's Unix socket |
| `PEN_FZF` | `fzf` | The fzf executable |
