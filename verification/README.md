# gtrace_core

The core of a Gerber-to-G-code converter for PCB laser engraving.

* `src/` is the verified library (Verus). It reads the lines of a Gerber file
  into a machine state: coordinate format (`%FSLAX`), unit (`%MOMM`/`%MOIN`),
  aperture definitions (`%ADD`), aperture selection (`Dnn`, nn >= 10), and the
  strokes (D01) and flashes (D03) of the drawing. Numbers are kept exactly,
  without floating point: coordinates as digit strings with the format and unit
  in effect, aperture sizes as the (trimmed, upper-cased) text of their float
  literals. `parser::step` is the specification of one
  line, `parser::run` of a whole file, and `laws` proves properties of both.
* `app/` is plain Rust around it: reading the file, turning the exact numbers
  into millimetres, polygon union of the copper (`geo`), isolation offsets
  (`clipper2`) and the JSON preview (`serde_json`).
