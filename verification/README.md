# sys_scripts

Verified logic of a set of desktop scripts: an install wizard, a sidebar
with media and system-information cards, and a Waybar weather daemon.

- `src/text.rs`: character-level string operations (search, replace, trim,
  lines, joins, path joining) with their specifications.
- `src/wizard.rs`: the wizard's config rewriting (`config.toml` placeholders,
  the Waybar sidebar toggle path) and its plans and decisions for files,
  links, binaries and commands.
- `src/weather.rs`: unit selection, the location override, the weather-code
  vocabulary and the Waybar payload.
- `src/media.rs`, `src/sysinfo.rs`: what the sidebar cards show.
- `app/`: the programs around the library: the weather daemon (`main.rs`),
  the wizard's file-system steps, and the GTK cards.
