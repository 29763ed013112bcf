# guildscan

Finds the guilds of a Shakes & Fidget server that one's own guild can attack,
and simulates battles against them.

`src/` is a library verified with Verus. It decides: which pages of the hall of
fame to read, which guilds to keep, which are attackable, whether strict mode
calls one beatable, what a filter shows, when loaded fighters may be used again,
what a request is answered. Every public function states what it returns or
changes; the `pub proof fn`s state what holds across functions.

`app/` is the program around it: the web server, the requests to the game
server, the files. It also computes with floating point numbers: offline days and
win ratios, which the library only carries, and the health of weakened fighters,
which the library checks by its bit pattern.

## What is not proved

The library believes a few short contracts about other code:

| item | about |
| --- | --- |
| `clock::local_now` | `chrono::Local::now` |
| `clock::signed_duration_since` | `chrono::DateTime::signed_duration_since` |
| `clock::format`, `clock::chrono_text` | `chrono::DateTime::format` |
| `battle::draw_below` | `fastrand::usize` |
| `battle::won_fights`, `battle::can_win` | `sf_api::simulate::simulate_battle` |
| `battle::ExFighter`, `Fighter::clone` | `sf_api::simulate::Fighter` |
| `battle::read`, `battle::reading_of` | the fields of `sf_api::simulate::Fighter` |
| `battle::lend_health`, `battle::with_health` | its field `max_health` |
| `String::push` | the standard library |
