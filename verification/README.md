# terminal

The core of a terminal emulator, verified with Verus: the escape-sequence
parser, the grid with its scrollback, and what stands around them. `app/` is the
program: windows, fonts, the GPU, files and processes.

| Module | What it holds |
| --- | --- |
| `parser`, `record` | bytes to actions; a performer that keeps them |
| `grid` | the screen, its modes, its answers, and the actions carried out |
| `sixel`, `image`, `codec` | pictures, base64, PNG |
| `search`, `selection`, `clipboard`, `ligatures` | text on the screen |
| `keys`, `mouse`, `pointer`, `input` | what the user does, as bytes and decisions |
| `tabs`, `tab_bar`, `theme`, `config` | the window around the grid |
| `engine`, `pty` | one terminal driven by commands and output |
| `render`, `atlas` | what a frame draws, and where glyphs are kept |
| `workload` | generated streams and the invariants that they keep |
| `text` | strings and bytes |

Every operation on the grid is stated over `grid::state::GridState`, a value of
sequences, maps and integers: a function's `ensures` says that the view after the
call is a function of the view before. `GridState::wf` is what every operation
keeps. Public proof functions state what holds across operations, such as that
restoring the cursor undoes saving it.

Calls into other crates and into parts of the standard library stand in small
wrappers whose doc comments say what is taken on trust.
