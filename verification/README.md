# swayosd

The decisions of an on-screen display (OSD) window for volume, brightness,
media players, lock keys and custom messages, verified with Verus.

- `src/content.rs` — the row of widgets shown for each kind of event (icon
  names, label texts, progress fractions, segmented bars).
- `src/text.rs` — decimal and percentage texts.
- `src/slide.rs` — margin arithmetic of the slide animation: the hidden
  margin, the frame interval and the cubic ease-out frame margin, exact for
  every animation length.
- `src/cubic.rs` — `c * t^3 / d^3` as a quotient and base-`d` remainder
  digits, with no number wider than 128 bits.
- `src/window.rs` — the window as a state machine that answers each event
  (new content, display timeout, animation frame, close, change of screen)
  with its next state and the ordered effects the toolkit carries out.
  A display is two steps: a `changed_*`/`custom_*` call replaces the row;
  once the toolkit has laid the row out and measured the window,
  `run_timeout` shows it and re-arms the hide timeout.
- `src/laws.rs` — properties that span operations.
- `app/` — the GTK4 layer-shell window that renders the rows and carries out
  the effects.
