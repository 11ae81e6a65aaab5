# pi-acp

An [Agent Client Protocol](https://agentclientprotocol.com/) adapter for the Pi coding agent. It
starts `pi --mode rpc` for each session and stands between Pi and the client: what the client asks
for becomes Pi commands, and what Pi says becomes session updates.

`src/` is the library, verified with Verus. It does no input or output.

- `records`, `json`, `text`, `paths`: lines of bytes, JSON values, and the few things that are done to
  texts and paths.
- `acp`, `pi_rpc`: the two protocols, as records that are cut, written and matched to what waits for
  them.
- `requests`, `replies`: what the client asks for, and what it is told.
- `translate`, `options`, `prompt`, `commands`, `dialog`: what Pi says in the words of the client, and
  the other way round.
- `index`, `session`: the sessions that are remembered and the ones that run.
- `rules`: what becomes of a request at each stage, stated. `flow` holds the stages, the events that
  they wait for and the actions in between. `adapter` is the code that does what `rules` says.
- `laws`, `histories`: what holds of the adapter as a whole, at each step and from the start on. The
  laws of a single module stand in that module.
- `process`: how the arguments of a process are handed to a WASI host.

`app/` is the program around it. It reads standard input, runs the Pi processes, keeps the index
file, waits and writes. For each request it does what the library asks for, hands the event back and
goes on until the request is over.

```sh
pi-acp --pi-command pi --state-dir ~/.local/state/pi-acp
```
