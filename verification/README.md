# battery_dashboard

The rules of a local, Linux-only battery dashboard, written in Verus and
proved against their contracts: how UPower and sysfs readings are normalized
and their provenance kept, how stored history is downsampled without joining
across gaps, how charge and discharge sessions are cut, how power profiles are
changed and confirmed, how the per-user systemd recorder timer is enabled and
disabled, and how exports are framed and escaped.

## Layout

- `src/` is the verified library. Each module states its rules as spec
  functions and proves each executable function against them; the laws that
  span several functions are public proof functions (`lemma_*`).
- `tests/` runs the library on concrete values.
- `app/` is the command-line program around the library: D-Bus, sysfs,
  SQLite, `systemctl`, the file system, and the summaries computed in
  floating point.

Calls into `chrono`, `chrono-tz` and `time` that compute on plain values stay
in the library behind small trusted wrappers, each documented with what its
contract claims of the crate it calls.
