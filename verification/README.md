# G-5500 HamLib adaptor — verified core

Network adaptor for a Yaesu G-5500 az/el rotator: it speaks the Hamlib
`rotctld` protocol on TCP port 4533, announces itself over mDNS, serves a
configuration web page and keeps its settings in a CRC-protected flash
record.

`src/` is the verified library (Verus):

- `crc8` — CRC-8/CCITT of byte strings.
- `config` — the configuration record: 60-byte version-2 flash layout,
  version-1 migration, round-trip, migration and corruption-detection laws,
  calibration updates,
  load/save outcomes.
- `hamlib` — the rotctld command grammar (short and long forms, numbers,
  `set_conf`/`get_conf` arguments).
- `session` — what each command does to the shared rotator state and the
  exact reply bytes.
- `http` — request routing, body and form-field extraction, URL decoding,
  decimal numbers and IPv4 addresses from the form.
- `mdns` — query parsing and A / service-discovery responses.
- `control` — relay decisions, ADC sample averaging, static-IP fallback and
  the status LED rate.

Angles and raw readings are single-precision values; the library carries
them as their IEEE-754 bit patterns, exactly as the flash record stores them.

`app/` is the firmware around it (Embassy tasks, sockets, flash, ADC, GPIO,
and the floating-point conversions and formatting). `tests/` exercise the
library on concrete inputs.
