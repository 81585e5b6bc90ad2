# concoct

A reactive user-interface runtime whose logic is verified with Verus.

- `src/` is the verified library:
  - `gap`, `slot_table`: the slot table, two gap buffers of groups and slots
    written through a `SlotWriter` and read through a `SlotReader`;
  - `semantics`, `text`: the accessibility tree with recycled node
    identifiers, the pending tree update and the handlers of nodes;
  - `hooks`: per-component hook storage that survives recomposition;
  - `modify`: modifiers and the click and keyboard handlers;
  - `render`: the decisions of the window's event loop and hit testing;
  - `compose`: when a view is made again and the order in which a tree of
    views is composed;
  - `runtime`: the message dispatch of the local reactive object runtime
    (which object and listeners run, the listener table, the live objects);
  - `args`, `driver`: the command-line decisions of the compiler driver;
  - `task`: tasks, the scope through which they share context values, and
    the system that builds and rebuilds a model's task;
  - `snapshot`, `native`: mutation policies, and the web view's loop.

- `tests/` exercises the library on concrete values.
- `app/` is the compiler driver program: it reads the command line and the
  environment, asks `driver::plan` what to run, and hands the run to rustc's
  driver, whose crates come only with a compiler toolchain's development
  component.

`compose` and `runtime` stand for parts of the project that were written
against a composition tree and an object runtime whose other pieces (the
view contexts, the view trait objects, the object handles) the project no
longer defines; what stands here is their decisions, on plain keys. The
task scope keys context values by a type number rather than by a type
identifier, and holds values of one type per scope.
