# onepage

A browser start page (daily Bing wallpaper, search engines, categorised quick
links, time-zone clocks) with a command-line tool for managing its links.

- `src/` is the verified library: the configuration and its defaults, the
  link operations (`cli.rs`, `links.rs`, `commands.rs`), the wallpaper request,
  answer handling and cache (`bing_wallpaper.rs`), clock formatting
  (`clock.rs`), the page computations (`handlers.rs`) and the cross-cutting
  properties (`laws.rs`).
- `app/` is the program around it: argument parsing, configuration file I/O,
  HTTP serving and templating, the HTTP request to Bing, printing and prompts.
- `tests/` exercises the library on concrete values.
