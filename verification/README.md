# fractal

The logic of a Matrix chat client for the GNOME desktop, written in Verus:
what the room list, the room history, the message rows, the room directory,
the invitation and verification screens decide, with each decision stated in
a contract and proved.

## Layout

- `src/` — the verified library, one module per part of the client:
  - `timeline.rs`: a room's events and the rows that show them, with day
    dividers, headers, pending echoes and relations;
  - `room.rs`, `room_list.rs`, `room_type.rs`, `room_details.rs`: rooms,
    their categories and tags, names and topics, and the list of rooms;
  - `event.rs`, `message_content.rs`, `message_text.rs`, `composer.rs`,
    `media.rs`, `media_viewer.rs`, `reactions.rs`, `state_row.rs`,
    `item_row.rs`: what a row shows of an event, how messages are composed
    and rendered, how media is sized, and how reactions are grouped;
  - `public_room_list.rs`, `invitee_list.rs`, `invite.rs`, `member_page.rs`,
    `room_creation.rs`: the room directory, the search for users to invite,
    invitations, the members page and the creation of rooms;
  - `verification.rs`, `session.rs`, `content.rs`, `room_history.rs`: the
    identity verification screens, the session, and the navigation between
    the client's pages;
  - `power_levels.rs`, `member_role.rs`, `highlight_flags.rs`,
    `content_type.rs`, `strings.rs`: shared definitions.
- `tests/` — tests of the library on concrete values.
- `app/` — what stays around the library: dates in the local time zone, the
  English texts of its messages, the parsing of a homeserver's address, and
  the decisions taken on floating-point positions.

The calls into `indexmap`, `html2pango`, `comrak`, `regex`, `serde_json` and
`rand` are made from the library through small trusted wrappers, each with a
contract that says what the library relies on.
