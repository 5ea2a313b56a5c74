# patchbot

A Discord bot for osu! players and friends. The message and request
building of every command lives in the verified library under `src/`:

- `src/text.rs`: decimal rendering, Unicode whitespace trimming, line
  splitting, string equality.
- `src/commands/mod.rs`: thousands grouping (`format_num`), the cached
  osu! API token, embed descriptions.
- `src/commands/{general,gifs,utility,wheel,osu}.rs`: the replies, request
  addresses and embeds of each command.

`app/` holds the bot itself: the Discord framework, HTTP requests, file
access for the wheel, and the formatting of floating-point values.
