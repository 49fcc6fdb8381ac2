# libwayshot

Screenshots of a Wayland compositor, with the decisions verified by Verus.

`src/` is the library. It holds no connection: it decides, on plain values, what to
ask the compositor for and what to make of the answers.

- `region`, `output`, `toplevel`: rectangles, outputs and windows.
- `connection`, `setup`: what is known of a compositor, and how a connection comes
  about.
- `screencopy`, `dispatch`: frames that the compositor copies, and what it reports
  about them.
- `convert`, `turn`, `canvas`: pixels, and images made of them.
- `screenshot`: which outputs to capture for a screenshot, and how it is put together
  from their frames.
- `ext_image_protocols`: captures of outputs, windows and selected areas through the
  image capture protocols.
- `overlay`: showing frames over the outputs while a region is selected.
- `shm`, `egl`, `wire`, `text`, `binary64`: anonymous files, EGL attributes, numbers
  on the wire and as text, and scaling with the rounding of double precision.

Functions named `law_*` are proved statements about several functions at once. The
functions marked `external_body` are calls into other crates; what is claimed of them
stands in their contracts and is not proved.

`tests/` runs the library on concrete values. `app/` is a crate around the library
that talks to a compositor.
