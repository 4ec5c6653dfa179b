# cmatrix

A scrolling "Matrix"-style rain of characters for the terminal, as a
verified library.

- `src/config.rs`: the settings and the keyboard commands that change them.
- `src/matrix.rs`: blocks, columns and the screen; the rules by which a
  frame advances, and the painting of network packets.
- `src/render.rs`: the instructions that draw a frame.
- `src/net.rs`, `src/text.rs`: reading a network device's packet counters
  from the kernel's device table.
- `src/random.rs`: the random draws, made with `rand`.
- `src/laws.rs`: properties that span several functions.
- `app/`: the terminal side: command-line options (`clap`), raw mode,
  events and output (`crossterm`), and reading `/proc/net/dev`.
