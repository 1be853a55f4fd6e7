# nkscan

The logic of a driver for Nikon (Coolscan) film scanners, written and proved in
[Verus](https://github.com/verus-lang/verus), and the command-line program and
Python extension around it.

## Layout

- `src/` is the library. It takes plain values and returns plain values, and
  every function in it is verified against its contract.
  - `protocol/` reads and writes what crosses the wire: command blocks, pages
    of capabilities, windows, sense data, records, and the scan stream.
    - `caps/` is what a unit says it can do.
    - `decode` unscrambles the stream of a pass into planes, and `curves`
      corrects a sample by its CCD row.
    - `window` builds and checks what a pass is asked for with.
    - `sense` reads an error as what to do next.
  - `device` names and picks the scanners that are attached.
  - `batch`, `feed`, `exposure`, `review`, `ram` and `output` hold the
    decisions of the program.
  - `script` and `names` hold what the Python extension goes by.
  - `dust` holds the decisions of dust removal.
  - `text`, `bytes`, `range` and `search` are what the others share.
- `app/` is the program: flags, files, the terminal, USB, and the floating-point
  arithmetic of dust removal. A transport, which carries commands to a unit, is linked in through
  `app/session.rs` and registers itself there. None is part of this project, so
  the program as it stands finds no unit that it can open.
- `tests/` runs the library.

## Contracts

Where a function refuses an input, its contract says which inputs those are and
in what words. Laws that span several functions are the proof functions whose
names start with `law_`.

Three things are taken on trust. Two are of the standard library, in
`src/text.rs`: what `String::push` does, and that `String::from_utf8_lossy`
gives the same text for the same bytes and leaves ASCII as it is. One is of the
`image` crate, in `src/review.rs`: that a part cut out of a picture holds the
pixels that were there.
