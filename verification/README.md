# rim

`rim` keeps a JavaScript project's dependency tree in a RAM-backed layer
(`/dev/shm/rim/<name>-<hash>/` by default) and leaves the project with only a
`node_modules` symlink.

- `src/` is the verified library: option parsing, the layer's paths and
  cache environment, the FNV-1a short hash, the `node_modules` link and
  cleanup decisions, Unix path components (`Path` equality, `starts_with`,
  `file_name`, `parent` and `ancestors`), the layer metadata file, the
  `rim ls` rows and `rim gc`'s plan, the
  readers of `df`, `/proc/mounts` and `/proc/meminfo`
  output, project detection, and the step-by-step plan of a tool run
  (`run.rs`), each with its contract, and the laws proved over them.
- `app/` is the command-line program: it reads the environment and the disk,
  runs the package manager, prints, and asks the library what to do next.
- `tests/` exercises the library on concrete values.
