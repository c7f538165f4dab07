# VWatch

VWatch watches a VPS over SSH — host metrics, systemd units, PM2 apps — and edits the
settings of the Palworld server on it.

- `src/` is the library: what VWatch knows and decides, written in Verus and proved against
  its contracts. Each module says at its top what it is about; `round_trip`, `safe_order`, `arguments`,
  `trees`, `fields` and `laws` state what holds across functions.
- `app/` is the program around it: the SSH session, the configuration file, the screens, and
  whatever is floating point.
- `tests/` runs the library on concrete values.

What Verus believes without proof is little: `String::push` (`chars`), the user's home
directory and `Path::join` (`config`), the clock (`worker`), and JSON parsing (`pm2`).
