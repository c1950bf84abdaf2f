# avionics

A cockpit display for a small panel: own-ship-centred traffic over weather radar and a map, a page of
broadcast weather, and an attitude page. It is fed by a Stratux receiver.

* `src/` is the library: what is on the screen, where, in which colour and in which words, and what a
  touch or a command line does to it. Its functions are verified with Verus against the contracts they
  carry. Two functions of the standard library are taken on trust, each with the contract its
  documentation gives it: `std::str::from_utf8`, which reads text out of the chart's bytes, and
  `String::push`. A page's picture is a list of marks (`marks`), so what a page shows is
  stated exactly.
* `app/` is the program around it: the graphics stack, the touchscreen, the receiver, the command
  line, and the painter that puts the marks on a canvas. It measures text, takes sines and cosines, and
  adds up the counts of a frame's parts.
* `tests/` runs the library on concrete values.

Quantities are whole numbers throughout: thousandths of a pixel, of a nautical mile, of a foot, of a
degree; nanoseconds. `src/lib.rs` lists the units and the modules.

Run as `gfx-spike`, the program draws a rendering test pattern instead.
