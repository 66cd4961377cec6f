# scheduler_bot

A Discord bot for a game group's weekly availability. Members react on the
server's availability message with the emoji of each time slot (two per day,
2-5 PM and 7-10 PM) they cannot make; every five minutes, when availability
changed, the bot redraws each server's timetable picture (green for free
slots, red for slots someone cannot make) and reposts it.

- `src/` is the verified library: the time slots and their picture cells
  (`timeslots`), the timetable drawing and redraw plan (`timetable`), the
  cache of tracked messages (`cache`), the change counter (`refresh`), the
  reaction handling state machine (`reactions`) and the setup command's
  content and stored row (`setup`).
- `app/` is the bot itself: Discord, PostgreSQL and file access, running the
  library's decisions.
- `tests/` runs the library on concrete values.
