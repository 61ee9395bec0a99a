# doenermann_bot

The Dönermann Discord bot: it copies the messages of a citations channel,
keeps birthdays, lets players roll, collect, gift and rank MyAnimeList
characters, and gives new members a role.

## Layout

- `src/` is the library, verified with Verus: the stored records and their
  tables, every command as a function from the database and the
  interaction to the new database and the answer, the routing of slash
  commands, buttons, menus and modals, and the text handling they need.
  The calls into chrono and url stand behind small trusted wrappers in
  `src/date.rs`, `src/api.rs` and `src/text.rs`, whose doc comments say
  what is believed of them.
- `app/` is the program around it: the serenity event handler, the Jikan
  request, `config.toml`, and the database file. It converts between
  serenity's, serde's and light-magic's types and the library's.
- `tests/` runs the library on concrete values.

## Choices

- The library's tables (`src/table.rs`) are its own rather than
  light-magic's: light-magic's table methods need serde's traits on the row
  types, which the library's types cannot have. They keep rows in key order
  and keep the first row of a key, as light-magic's table does.
- Discord objects are modelled as plain data (`src/response.rs`,
  `src/commands/mod.rs`); dates are `src/date.rs`'s `Date`, moments are
  `Timestamp`s.
- Whatever depends on the machine (today's date, the time zone's offset
  from UTC) is read through a wrapper that states only what holds of every
  outcome. The birthday commands have a form that takes today's date as an
  argument; `/citations` states its field names as the citations' own
  times written at some valid offset each.
- serenity 0.12 can neither label a select menu inside a modal nor read
  the users chosen in a submitted one, so the program sends the gift
  modal's user menu in an action row and cannot pass the chosen recipient
  on; a gift is then answered as not found.
