# kdeconnect

The decision logic of a KDE Connect client for the COSMIC desktop, written
in Verus and proved against its contracts.

- `src/` is the verified library:
  - `protocol` — packet types and their wire names, packets, identities,
    pairing requests, the framing of a packet on the wire;
  - `contacts`, `sms_utils` — vCard parsing (line unfolding,
    quoted-printable), phone-number normalisation and matching, relative
    time stamps, contact-list packets;
  - `applet`, `popup` — the panel applet as a state machine from message to
    next state and outside tasks, and what its device and media cards show;
  - `settings`, `settings_panel` — the settings window as a state machine,
    and what its device profile shows;
  - `sms_views` — previews, contact search and lookup, unread markers,
    message bubbles and attachments;
  - `notification`, `hidden_conversations` — forwarded notifications and
    the hidden SMS threads of a device;
  - `text`, `json`, `strmap`, `device`, `clock` — the building blocks.
- `tests/` runs the library on concrete values.
- `app/` is the unverified shell around it: serde forms of the wire types,
  files, desktop notifications, and the loops that perform the tasks the
  state machines return.

Each public function states in its `ensures` what it returns; the
`law_*` proof functions state what holds across calls.
