# delta

The decision logic of a chat platform's safety and staff control plane,
written in Verus with its contracts proved:

- `permissions`: the staff permission catalog, the role templates and the
  checks that guard every staff action.
- `rollout`: feature switches, the emergency kill switch, promoted features.
- `audit`: the bounded audit log of staff actions and the reads of it.
- `reports`, `store`: the report model, its lifecycle, and the in-memory store
  of reports, snapshots, stickers and soundboard clips.
- `queue`: the moderation queue (filters, order, pages) and its dashboard.
- `workflow`: staff reviews and workflow actions on reports.
- `filing`: filing a report, including the collapsing of repeated reports.
- `accounts`, `restrictions`: finding and inspecting accounts, and deciding
  changes to their flags, cosmetics, staff roles and restrictions.
- `system`: system feature switches, support e-mail settings, audit export.
- `assets`: server stickers and soundboard clips behind their switches.

`src/` is verified with Verus; `tests/` exercises it as ordinary Rust. `app/`
holds what surrounds the library in a running service: the process-wide state,
the configuration read from the environment, the JSON forms of the types, the
flows that call outside systems between the library's decisions, the staff and
asset handlers, and in-memory stand-ins for the outside systems.
