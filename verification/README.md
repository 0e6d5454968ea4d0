# psysonic

The logic of the Psysonic music player's shell, written and proved in Verus: the cover cache and its
library backfill, the background sync of the library, the watch over the audio output device, the
main window and the mini player, media controls, shortcuts, and the live reload of themes.

- `src/` is the library. Its functions carry contracts that Verus proves, save for the few trusted
  ones described below. What holds of several functions together stands as a public proof function
  whose name begins with `law_`.
- `tests/` runs the library on concrete values.
- `app/` is the ordinary Rust around it: files, network, tasks, windows. It performs what the
  library decides and hands back what came of it. The application framework, the track library, the
  cover encoders and the audio engine come in through the traits of `app/host.rs`.

Outside crates are called in `src/` from a handful of small functions whose contracts are taken on
trust; each says above it which function it calls and what it claims of it.
