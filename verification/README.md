# station-shell

The decision core of an encoding-station kiosk shell, written and proved in
Verus, with the program around it.

The shell hosts an operator page and owns what the page deliberately does not:
verdicts on taps, per-chip retry counting (the third consecutive recoverable
failure makes a chip dead), session persistence across crashes, batch state,
and the meaning of `connected`. Keying and the guarded write of outcomes live
elsewhere; this build drives simulated seams.

## Layout

- `src/`: the library. No input or output happens here.
  - `actor`, `messages`: the station core as a state machine. It takes a
    message, changes the state and answers with the effects to perform, in
    order, and with what comes next. Outside work (keying, the batch source,
    the disk) is asked for, and its result handed back.
  - `state`, `retry`, `contract`, `records`: the station state, the retry
    ledger, the wire values and the supervisor's records.
  - `laws`, `tap_laws`, `shift_laws`: what the core promises as a whole, among
    it that disk and boot state always lead the page, that pushes are stamped
    upwards, and that retry, retry, dead is the ladder of every chip.
  - `keying`, `batch_source`: the simulated layers.
  - `reader`, `probe`: the reader monitor's decisions and its guided check.
  - `watchdog`, `devexit`: page recovery and the exit chord.
  - `cli`, `config`, `launch`, `commands`, `conformance`, `logging`, `boot`,
    `windows`, `spike`: the rules of a launch, of commands, pages, windows and
    logs, and of the reload spike.
  - `pin`: the digests that the page's contract files are frozen with.
  - `text`: text primitives. `outside`: the calls into other crates, each with
    the contract that the library relies on and does not prove.
- `app/`: the program: windows, files, the card-reader service, the async loop
  that performs the core's steps, and the serialized forms of library values.
  The init script (`gen/init_script.js`) and the batch fixtures
  (`fixtures/batches.json`) ship beside the executable.
- `tests/`: the library from outside.

## The order of things

Every change that the page can see is performed as *disk, boot, push*: the
session file is written, fresh documents are made to boot from the new state,
and only then is the page told. `laws::law_what_is_announced_is_on_disk` states
it for every push of every run whose own write succeeded. A write that fails
leaves the file as it was; the page is told all the same, and
`shift_laws::law_a_failing_disk_pauses_the_line` states what follows: the line
pauses, ticks write again, and the first write that succeeds brings it back.
