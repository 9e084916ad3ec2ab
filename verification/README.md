# simwheel

Steer-by-wire and force-feedback tooling for a Simucube 2 Pro wheel in
Assetto Corsa.

- `src/` is the verified library: decoding the simulator's physics page and
  the telemetry server's vehicle records, picking the wheel among the attached
  controllers by name, the key lookup of the speed-dependent steering table,
  and the telemetry client's reaction to WebSocket messages.
- `app/` holds the Windows programs around it (DirectInput, vJoy, the status
  window, plotting) and the floating-point parts: table interpolation, force
  scaling and shaping.
