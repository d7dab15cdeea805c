# faultforge

A hardware-in-the-loop fault-injection bench: an injector perturbs a sensor
stream (bit flips, corrupted bytes, drops, delays, replays, bursts) and reports
each fault it injected; the host checks the stream as a device under test
would and scores its detections against those reports.

The library (`src/`) holds the logic, each function with a Verus contract:

- `protocol`, `parser`: the framed wire protocol (CRC-8/ATM), the streaming
  parser that resynchronises on garbage, the campaign PRNG.
- `fault`, `fault_traits`, `stability`: bit primitives, the LFSR, the SPI, I2C
  and UART injectors with their armed/disarmed type state, and the self-check.
- `bist`, `canary`, `glitch`, `telemetry`, `usb`: the injector's self-test
  verdict, canary check, glitch settings, telemetry readings and host replies.
- `crypto`: AES-128, ChaCha20 and SHA-256 for side-channel work, and
  constant-time comparison.
- `dut`, `session`, `campaign`, `tally`, `report`: anomaly detection, the
  per-frame campaign session, scoring and the CSV report.
- `sim`, `args`, `ports`: the in-process injector engine, command-line options
  and serial-port choice.

`app/` is the host program around it: serial I/O, the simulated link, the
Tokio pipeline and console output.
