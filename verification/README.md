# silanes

Registers any executable as a Windows service from a YAML file, hosts it
(restarts, hooks, graceful stop, log rollover, pre-start download) and keeps
deployed hosts up to date with a boot-time updater.

- `src/` is the verified library: the program's decisions, stated as
  contracts over mathematical models and proved with Verus. Argument routing,
  service-name validation, install planning (reserved names, in-place mode,
  reinstall-from-another-source refusal), configuration redaction, host
  restart and graceful-stop state machines (including whether the child's
  process tree is killed), the configuration calls after a service is
  registered, the updater's upgrade and cleanup decisions, process-tree
  search, version comparison, SDDL parsing, log naming, rollover and
  retention, chunked download planning, URL redaction and digest checks.
  Calls into `chrono`, `reqwest`'s URL parser, `sha2` and a few std functions
  stand behind small trusted wrappers whose contracts say what they return.
- `tests/` runs the library on concrete inputs.
- `app/` is the program around it: reading files and the registry, talking
  to the service control manager, spawning processes, HTTP downloads and
  printing. It asks the library what to do and carries the answer out. The
  order of the service manager's status reports and of the steps before a
  download (refusal, cache check, download) is kept there, in the code that
  performs them.
