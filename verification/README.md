# campaign_viewer

The decision logic of a SUIT firmware-update campaign viewer, verified with
Verus. The viewer polls an SOVD gateway for each ECU's `/updates` lifecycle,
firmware version, diagnostic DIDs and guest liveness, and logs every
meaningful transition.

- `src/update_status.rs` — display state of a status body; lifecycle fields.
- `src/diagnostics.rs` — an ECU's diagnostic parameters, each key at most once.
- `src/ecu.rs` — ECU identity and status, routing, liveness, firmware version,
  parameter discovery.
- `src/diff.rs`, `src/diff_laws.rs` — the change log between two statuses and
  what holds of it.
- `src/history.rs`, `src/history_laws.rs` — the last status seen of each ECU
  and a polling round.
- `src/discovery.rs` — gateways, apps and direct ECUs found at connect time.
- `src/manifest.rs` — the manifest summary.
- `src/text.rs`, `src/clock.rs` — decimal rendering, lower-casing, the clock.
- `app/` — the Tauri shell: commands, polling task, SOVD reads.
