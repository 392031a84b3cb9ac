# embedded_trials

Verified cores of a set of small embedded, desktop and plugin experiments,
written in Verus.

- `src/` is the verified library: a two-future join and a flag-driven
  polling loop (`join`, `polling`), the geometry of a rotated display
  (`display`), WS2812 frame encoding (`ws2812`), an ESB link test (`esb`),
  Typst plugin functions including an XLSX table reader (`plugin`, `text`),
  a keyboard-hook message classifier (`keyhook`), a BLE keyboard's
  advertising data and GATT answers (`ble`), and two small event handlers
  (`blink`, `ui`).
- `tests/` runs the library against concrete inputs, with the real outside
  crates linked.
- `app/` holds the trait impls and loops around the library: the `Future`
  for the join, the rotated `DrawTarget`, the plugin exports, and the
  drivers that perform what the library's decisions call for.
