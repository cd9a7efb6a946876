# wanikani_tui

A terminal client for WaniKani lessons and reviews, with its logic verified
by Verus.

## Layout

- `src/` is the verified library.
  - `text.rs`: trimming, answer normalisation, joining, markup stripping.
  - `grading.rs`: the optimal-string-alignment distance, typo tolerance and
    the grading of meanings and readings.
  - `kana.rs`: readings typed in romaji, converted to hiragana.
  - `subject.rs`: subjects, their accepted meanings and readings.
  - `schedule.rs`: which summary buckets are due, and which subjects a
    session takes.
  - `client.rs`: the API requests (paged by a hundred ids), the ordering of
    fetched subjects, assignment lookup and synonym writes.
  - `app.rs`: the application as a state machine. Each key press, paste or
    answer from the network yields the next state and the outside work to
    do next (an `Effect`); the invariant that every step keeps is proved.
  - `screen.rs`: the texts each screen shows.
- `app/` is the terminal program: it reads keys, draws with ratatui, sends
  the requests with ureq, decodes JSON with serde and stores the token. It
  performs each `Effect` and reports the outcome back to the library.
- `tests/` exercises the library on concrete values.
