# open_rebellion

A verified core for a galactic strategy game, written in Verus.

- `src/` is the library. Every function has a contract, and laws that relate
  several functions stand beside them as public proof functions named `law_…`.
  - `arena`, `ids`, `dat`, `world`: the world model.
  - `ai*`: the computer player. `ai_advance` runs one evaluation,
    `ai_people_laws` and `ai_fleet_laws` say what every evaluation respects.
  - `combat`, `space*`, `ground`, `combat_laws`: battles.
  - `bombardment`, `death_star`, `betrayal`: rules of their own.
  - `mission_effects`, `ground_campaign`, `tactical`, `day_events`, `orbit`,
    `ai_orders`: what happens to a campaign, and how it is told.
  - `campaign`, `panel*`: the player's orders.
  - `screens`, `story`, `fonts`: what is shown.
  - `runtime_pack`, `assets`: the asset pack.
- `tests/` runs the library on concrete values.
- `app/` is the program around it: the window, files, dice and everything that
  needs floating point.

Two functions outside the project are trusted: `std::str::from_utf8` in
`runtime_pack` and `serde_json::from_slice` in `assets`.
