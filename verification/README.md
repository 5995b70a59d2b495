# diffuser

A paint-diffusion canvas: mouse strokes paint cells of a grid, and each frame the
paint spills from every cell into its eight neighbours and slowly fades.

- `src/` is the verified library (Verus):
  - `matrix.rs`: the row-major grid geometry (edge tests and the neighbour of an
    index in each compass direction, with laws relating them to rows and columns)
    and `Matrix2D`, a grid of cells of any type;
  - `line.rs`: the points of a Bresenham line, stated in closed form, and the call
    into the `line_drawing` crate that produces them;
  - `paint.rs`: painting a single cell or such a line into a matrix, and the checked
    cell lookup used when drawing;
  - `event_loop.rs`: what the event loop decides on each event (stop, which mouse
    buttons are held, whether the model steps);
  - `rect.rs`, `vector2.rs`, `error.rs`, `app_error.rs`: small value types.
- `app/` is the program around it: the window, the event loop's plumbing, the floating-point
  diffusion step and the frame drawing.
- `tests/` exercises the library.
