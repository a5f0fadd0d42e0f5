# barcode_keyboard

The desktop side of a phone-to-PC barcode scanner: the phone scans a
barcode and sends it over a peer-to-peer link; the PC types it into the
focused window.

- `src/` is the library, verified with Verus: the barcode-format selection
  and its `formats=` parameter (with the proof that reading a parameter
  back gives the same selection), the scanner URL, the configuration and
  its defaults, duplicate-scan filtering, the text typed for a scan and the
  commands of each keystroke backend, the QR code image layout, the
  terminal output, the scan history and the Windows `SendInput` event plan.
- `tests/` runs the library on concrete values.
- `app/` is the program around it: configuration file, environment
  detection, the keystroke backends, terminal and GUI modes.
