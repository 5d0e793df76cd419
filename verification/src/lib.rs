use vstd::prelude::*;

pub mod composer;
pub mod content;
pub mod content_type;
pub mod event;
pub mod highlight_flags;
pub mod invite;
pub mod invitee_list;
pub mod item_row;
pub mod media;
pub mod media_viewer;
pub mod member_page;
pub mod member_role;
pub mod message_content;
pub mod message_text;
pub mod power_levels;
pub mod public_room_list;
pub mod reactions;
pub mod room;
pub mod room_creation;
pub mod room_details;
pub mod room_history;
pub mod room_list;
pub mod room_type;
pub mod session;
pub mod state_row;
pub mod strings;
pub mod timeline;
pub mod verification;

verus! {

} // verus!
