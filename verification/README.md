# openclaw_launcher

Launches and supervises the OpenClaw gateway as an ordinary process: it is run in
the foreground, watched by its process and its port, and stopped by ending it.

- `src/` decides and computes, and is verified with Verus. A procedure that
  alternates with outside work (`install`, `launch`, `pid`, `status`, `wait`) is
  a function from the step that was taken and what came of it to the next step.
  `config` enters the local model in the gateway's configuration, which
  `serde_json` reads, holds and writes; `registry` and `environment` decide what
  an installation and the gateway get to see; `commands` holds the programs that
  are run and what is read from their output.
- `app/` takes the steps: processes, sockets, files and the Tauri commands.
- `tests/` runs the library on concrete values.
