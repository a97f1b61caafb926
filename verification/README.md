# palmar-velle

A gesture-controlled virtual mouse: a webcam frame goes through a hand
landmark model, the landmarks become gestures (move, click, drag, scroll,
double click), and the gestures drive a virtual input device.

- `src/` is the verified library (Verus): debounced pinch detection
  (`pinch`), the gesture state machine (`gestures`), the tracker's crop,
  tensor layout and confidence hold (`tracker`), the input-device write plans
  (`mouse`), and the clock the recognizer reads (`clock`).
- `app/` is the program around it: camera capture, image processing and
  inference, the floating-point landmark geometry and cursor smoothing, and
  the uinput device.
- `tests/` runs the library on concrete frames.
