# sema

A Linux system resource monitor whose decision logic is verified with Verus.

sema watches disk, CPU, memory, swap, battery, temperature, network and disk
I/O, and can chime at chosen minutes of the hour. When a metric passes its
threshold it sends a desktop notification, holds back repeats for a cooldown,
and says when the condition is over.

## Layout

- `src/` is the verified library:
  - `config`: thresholds (in hundredths), defaults, validation, the default
    configuration file and what a read of that file gives;
  - `checkers/`: one checker per metric, each deciding from a snapshot of
    readings whether an alert is due, and the dry-run status lines;
  - `sink`: notification cooldowns, active conditions, recovery notices and
    the grouping of several alerts into one;
  - `monitor`: one monitoring cycle, including the rule that drops a checker
    after three consecutive failures;
  - `control`, `log`: signal and systemd decisions, log paths and lines;
  - `text`, `scan`, `keyed`: rendering, parsing and a small keyed table.
- `app/` is the program around it: command line, reading the file, probing
  the system, sending notifications, the main loop.
- `tests/` runs the library on concrete values.

Every function in `src/` has a contract that Verus proves, with one
exception: `text::push_char`, a trusted wrapper around `String::push`
(which has no specification in Verus's standard library). Its contract,
that the character is appended, is believed, not proved. The laws that span
several calls (cooldowns, baselines, validation, the failure rule) are
public proof functions.

The local clock is read in `app/`, not in the library: the snapshot a cycle
works on carries the local time of day, and alert log lines are stamped from
a date and time the caller passes in.
