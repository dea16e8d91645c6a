# mafia_server

A server for the party game Mafia. Players connect over TCP, pick a
nickname, make or join rooms of 4 to 12 seats, chat, and play the classic
game: jobs are dealt at random, and the day runs through night, day, vote,
final objection and a yes-or-no vote.

- `src/` is the library, verified with Verus: the packet wire format, the
  chat word filter, room seating and room id allocation, what each request
  of a player asks for, job dealing, and the classic game's reaction to
  each event (`ClassicGameState::step`, which returns the packets to send
  and the timers to run).
- `app/` is the server around it: sockets, tasks, locks and the game's
  channel and timer. It reads the protocol's numbers from
  `method_table.txt` (lines of `NAME number`) and the filtered words from
  `dirty_words.txt` (one per line).
- `tests/` runs the library on concrete values.
