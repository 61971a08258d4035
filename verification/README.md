# nvim-vadre

Vadre debugs programs from within Neovim. It speaks the debug adapter protocol to
CodeLLDB, debugpy, Delve and netcoredbg, and the inspector protocol to Node.

- `src/` is the library, verified with Verus: reading the commands of Neovim, framing
  messages, the bookkeeping of breakpoints and of awaited answers, the steps that set
  a session up, and everything that the windows show. What touches the outside is
  left to the caller: the functions take what came in, and tell what to do next.
- `app/` is the plugin: the connection to Neovim, the processes of the adapters, the
  sockets, and the JSON of the typed messages.
- `tests/` runs the library on concrete values.

Each function states in its contract what it returns. The contracts are exact, but
for the name of the file at a path that systems read differently: there they say what
holds on every system. What holds across functions is stated in public proof
functions, among them:

| Module | Law |
| --- | --- |
| `codec` | what was written as a frame is read back, and how the input is cut into pieces does not matter; a frame that is no message is handed on as its value, and the next one is read undisturbed |
| `breakpoints` | a file has breakpoints on the lines on which one was placed and not taken away since |
| `listing` | a line of the list of breakpoints is understood as the breakpoint it shows |
| `processor` | no number is given to two requests until all have been used |
| `session` | a session is complete only when the launch and the configuration were answered |
| `debugpy`, `node` | an answer goes to who awaits it, and only once |
| `json` | merging twice comes to the same as merging once, unless a null was carried over |
