# arcanaglyph

The logic of ArcanaGlyph, a desktop voice-typing tool: a hotkey starts a
recording, a speech-recognition engine (GigaAM, Whisper, Vosk, Qwen3-ASR)
turns it into text, and the text is typed into the active window and kept in
a history.

`src/` is a library verified with Verus. Every function there carries a
contract over a mathematical model (sequences of characters for text, a
sequence of entries with distinct names for the model pool) and is proved
against it:

- `control`, `engine`, `recorder`, `session`, `event`: the engine's state
  machine (trigger, pause, model pool and its LRU unloading, the recording
  loop's decisions, what each event shows);
- `decode`, `asr`, `qwen`, `spectral`, `preprocess`, `audio`, `transcript`:
  the integer side of recognition (CTC and RNN-T decoding, the Qwen3-ASR
  prompt, chunking and generation loop, tensor layouts, silence trimming,
  filler-word removal);
- `config`, `startup`, `models`, `paths`, `retranscribe`, `migrations`,
  `history`: configuration, model files on disk, history export;
- `updater`, `proxy`, `hotkeys`, `widget`, `platform`, `text`, `error`:
  release checks, system settings parsing, GNOME hotkeys and shell
  extension, error texts.

Floating-point signal processing, the recognition engines themselves, audio
capture and all I/O stay outside the library. `app/` is a small command-line
program around it (history, export, update checks, GNOME integration).
