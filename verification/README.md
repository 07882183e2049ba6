# open-rc2k

The verified core of a patch for Rally Championship 2000, loaded by the game as
its `dinput.dll`.

- `src/` is the library, verified with Verus: the `RAL.CFG` settings and their
  parser (`config::ral_cfg`), the path builders and the file-loading protocol
  (`filesystem`), the log line composer and the game's number formatter
  (`logging`), and the game's number parser, random number generator, clock,
  thread blocks and string helpers (`utils`).
- `app/` is the part the game loads: hook installation, the assembly that
  receives the game's register-passed arguments, reads and writes of the
  game's memory, and the Windows calls. It builds for 32-bit Windows only.
- `tests/` runs the library on concrete inputs.
