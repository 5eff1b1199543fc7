# dsh-desktop

A desktop launcher for the dsh web service. It runs `npx @deepseek-ai/dsh web`,
or attaches to a service that is up already, and shows the service in a window.

`src/` is a library, verified with Verus, that holds what the launcher decides:

- `startup`, `retries`, `provision`: the startup flow, the retries in the
  background and the way to a portable Node.js, each as a step from what was
  learned to what is done and asked next;
- `waiting`, `diagnose`: how long to wait for what, and what a run on another
  port shows;
- `npx`: the installation of dsh in the cache of npx, as the log tells of it;
- `settings`, `paths`, `environment`, `command`, `node`: directories, variables
  and commands;
- `server`, `window`, `page`, `relaunch`: the process of the service, the
  windows, the scripts for the startup page, and the replacement of the instance;
- `log`, `json`, `text`, `number`, `place`, `latch`: what the others are made of.

`app/` is the program around it: windows, files, processes and threads. `tests/`
runs the library on concrete values.
