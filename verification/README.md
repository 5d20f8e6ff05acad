# ocpop

Waybar widget for opencode sessions. `src/` is the verified library: session
states, the debug list, the bar text and tooltip, the session picker's decisions,
the usage cache rules and `/proc/stat` boot-time parsing, with their contracts
and the laws in `src/laws.rs`. `app/` is the command line around it: clap, the
`opencode db` / `fuzzel` / `niri` / `alacritty` / `curl` processes, files, JSON
and the floating-point usage bars.
