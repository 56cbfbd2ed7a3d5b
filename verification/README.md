# freewheeling

The logic of the FreeWheeling live looper as a verified library.  The
functions under `src/` are verified by Verus against their
`requires`/`ensures` contracts.  Functions that hand work to a
user-implemented trait (the application's services, the configuration, a
browser, a file store) state which calls they make, in what order and
with what arguments, and what holds whatever those calls return (a few
state nothing more: `stream_stats`, `loop_state`).  Their decisions are
made by separate functions with exact contracts (`setup_decision`,
`startup_config_calls`, `saved_files_listing`).

Modules:

- `browser`, `browser_types`, `paths` — the loop, scene and patch browser:
  scanning a directory listing, display names, newest-first ordering,
  divisions, moving and jumping between banks, renaming, patches and their
  banks; path components and `Path`'s order.
- `jack_ringbuffer` — a single-reader, single-writer byte ring buffer.
- `md5`, `core_persistence`, `core_persistence_parse`, `xml` — hashes,
  saved file names, loop metadata and scenes (documents read through
  `roxmltree`).
- `datatypes`, `config_model`, `event`, `event_params`, `event_manager` —
  typed configuration values, configuration records and value parsers,
  events, their types and parameters, the values bindings read from an
  event, and the bounded queue that delivers them to listeners.
- `audio_block` — chains of audio blocks: reading across blocks, copies
  that wrap around, silencing, the stored byte form, and an iterator that
  writes and reads fragments.
- `stacktrace` — building the crash reporter's shell commands in bounded
  buffers, and reading `nm` output.
- `persistence_store` — saving loops, renaming every file of a saved
  object, the listing a browser of saved objects shows, reading metadata
  back, all through a file-store trait.
- `core_state`, `app_services`, `fweelin_app`, `startup` — the core of a
  session (setup, events, the output stream, snapshots, shutdown) and the
  application that owns it.
- `runtime_config`, `includes`, `binding_plan`, `binding_registry`,
  `expression_text`, `bound_event`, `variables` — reading a configuration
  document: its `<var>`,
  `<layout>`, `<font>`, `<display>` and `<fluidsynth>` elements, its root
  and its interfaces; the external entities of its document type; the
  input and the chain of outputs of a `<binding>`, the assignments of its
  conditions and parameters, and what a `<declare>` declares; the
  operands and operators of an expression; the bindings of a document or
  of its `<bindings>` section and the tables that hold them by input type
  and bucket; the event a matched binding builds from its parameters; and
  the configuration's variables with their name-ordered copy.
- `blocks`, `processing`, `dsp_profile`, `mixer`, `acceptance`,
  `audio_format`, `fluid`, `core_dsp`, `text` — the rest of the
  application's decisions and state, among them the loop pulse.

Floats are carried by their bit patterns where the logic only passes them
on; converting between integers and floats is done on the bits.

`app/` holds what needs the machine: the file system, clocks,
process-wide registries, memory locking, running `amixer`, the session's
event loop, and floating point.  Tests are under `tests/`.

Not here: evaluating the expressions of binding conditions, parameters
and declared initial values (their values are floats as often as
integers, and key names come from SDL, whose key table is not part of
this program), rounding a length to whole pulses (through `f32`),
parameter-set displays, and reading patch banks (they are read from
disk).  `app/` reads the configuration file and the files it includes,
hands their text to the library, and works out the bucket values of
bindings whose expressions are plain numbers.
