# Urinal Fish

A Discord bot for planning nights out: event polls with vote buttons,
remembered choice sets, recurring polls posted on a schedule, and a small
easter egg. The library in `src/` holds the bot's logic and is verified with
Verus; `app/` is the Discord, SQLite and clock plumbing around it.

## Layout

- `src/text.rs`: characters, trimming, decimal numbers, splitting and joining.
- `src/validation.rs`, `src/choices.rs`: cleaning of poll text and choice lists.
- `src/calendar.rs`: dates, times, instants and time zones (through `chrono`
  and `chrono-tz`).
- `src/recurrence.rs`: schedules and the next instant at which one falls.
- `src/models.rs`: polls, votes, series and the easter egg's records.
- `src/components.rs`: vote buttons and what a press does.
- `src/discord.rs`: the embed, buttons and message of a poll.
- `src/commands.rs`: what the slash commands check, decide and reply.
- `src/storage.rs`: the rows the store writes and reads back.
- `src/config.rs`: the configuration, from the environment's values.
- `src/scheduler.rs`: the poll a due series posts.
- `src/easter_egg.rs`: the daily roll, the taunt it plans and the message it posts.

## Configuration

The bot reads `DISCORD_TOKEN`, `DISCORD_GUILD_ID`, `DISCORD_CHANNEL_IDS` (or
`DISCORD_CHANNEL_ID`), `DATABASE_PATH`, `DEFAULT_TIMEZONE` and
`SCHEDULER_INTERVAL_SECONDS`, from the environment or a `.env` file.
