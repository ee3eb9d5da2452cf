# ncpages

Watch a folder in Nextcloud, build a static site when it changes, publish it
atomically, and serve it.

The crate has two parts:

- `src/` is the library, written in Verus. Every rule the service applies
  between a trigger and a published release is a function there, with a
  contract Verus checks: which paths a server may make the service write, what
  the publish gate accepts, in which order the pipeline's steps run and that
  `post_publish` only ever follows a successful swap, which releases retention
  removes, how release ids are formed (and that they sort chronologically),
  what a hook's exit code means, which environment a program sees, what is
  reported and when.
- `app/` is the service binary: the command line, reading the configuration
  and the state, HTTP (WebDAV, ntfy, notify_push, the site and the agent), the
  filesystem and child processes. It performs the steps the library decides.

Module map of `src/`:

| module | what it decides |
|---|---|
| `config` | the configuration, its defaults, the startup rules, the hook environment |
| `source` | WebDAV URLs and credentials, reading PROPFIND answers, walking the remote tree, what to fetch and delete |
| `scheduler` | debounce, the hard deadline, jitter, coalescing triggers |
| `pipeline` | the steps from trigger to report, as a state machine |
| `hooks` | exit codes, environments, one phase of hooks as a state machine |
| `gate` | the checks between build and publish |
| `publish` | release ids, the publish root's layout, retention |
| `report`, `serve`, `agent`, `push`, `doctor`, `cli` | what is sent, served, answered and printed |
| `text`, `paths`, `order`, `strmap`, `xml`, `fsutil`, `state` | strings, paths, ordering, maps, XML outlines, file rules, state |
