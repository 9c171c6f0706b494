# padlink

Watches for Sony game controllers (DualShock 4 and DualSense) on USB and
Bluetooth, takes them over, and disconnects them again when it ends.

`src/` is the library, verified with Verus. It decides and computes and does no
input or output of its own:

- `sony_reports`, `bytes`: the reports, byte for byte, written and read back.
- `checksum`: the checksum that closes a Bluetooth report.
- `device`, `address`: which devices are controllers, how they are attached, what
  their Bluetooth address is, and what to do when one is let go.
- `controller`: what to send to a controller.
- `registry`: the controllers that are connected, each only once.
- `radio`: the search for a Bluetooth radio that disconnects a device.
- `hex_dump`: bytes as text.

What is taken on trust is marked as such at two places: the call of `crc_fast` in
`checksum` and that of `u64::from_str_radix` in `address`.

`app/` is the program around it: devices, radios, and the loop that waits for
events. `tests/` runs the library.
