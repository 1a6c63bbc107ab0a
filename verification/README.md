# mkea_core

The verified core of a runtime that loads and runs ARM32 iOS application
images. Everything under `src/` is checked by Verus against its contracts.

- `memory`, `bootstrap`, `plan`: the guest address space, the regions an
  image needs, and the bootstrap layout (segments, stack, entry point,
  initial registers, warnings).
- `disasm`: formatting of ARM and Thumb instruction words.
- `control`, `framebus`, `inputbus`, `input`: stop signalling and the
  bounded frame and input queues between the runtime and its host.
- `surface`: choosing the logical drawing surface and keeping the viewport
  in step with it.
- `profiles`: per-title behaviour.
- `backend`: the memory backend: guest memory access, the synthetic heap,
  Objective-C selector interning, the synthetic network connection and
  run loop, OpenAL and AudioQueue state, the synthetic scene graph (attach,
  detach, walks, reconciling with the guest's graph, multiplex layer
  switching), textures, atlases, Foundation backing objects, software
  drawing, menu-item variant choice and the runtime state report.
- `text`, `error`: text helpers and the error type.

`app/` holds what is not verified: float measurement and formatting, serde
records, the process-wide frame and input queues, and the loop that asks
the guest for each node's children during a scene-graph reconcile. `tests/` exercises the library from outside.
