use vstd::prelude::*;

verus! {

/// The longest room name and address, in bytes.
pub const MAX_BYTES: usize = 255;

/// What is wrong with a room address.
#[derive(Clone, Copy, Debug, PartialEq, Eq, Structural)]
pub enum AddressError {
    /// "Can't contain `:`"
    Colon,
    /// "Can't contain `#`"
    Hash,
    /// "Too long. Use a shorter address."
    TooLong,
    /// "The address is already taken."
    Taken,
}

/// Whether a room address can be used, and what is wrong with it.
#[derive(Clone, Copy, Debug, PartialEq, Eq, Structural)]
pub struct AddressCheck {
    pub valid: bool,
    pub error: Option<AddressError>,
}

/// How the room creation form checks its input.
#[derive(Clone, Copy, Debug, PartialEq, Eq, Structural)]
pub struct Validation {
    /// Whether the name can be used.
    pub name_valid: bool,
    /// Whether the name shows "Too long. Use a shorter name."
    pub name_too_long: bool,
    /// For a public room, whether the address can be used and what is wrong
    /// with it; a private room has no address, and its error is left as it
    /// was.
    pub address: Option<AddressCheck>,
    /// Whether the room can be created.
    pub create_enabled: bool,
}

/// Whether `c` occurs in `s`.
pub open spec fn has_char(s: Seq<char>, c: char) -> bool {
    exists|i: int| 0 <= i < s.len() && s[i] == c
}

fn contains_char(s: &str, c: char) -> (b: bool)
    ensures
        b == has_char(s@, c),
{
    let n = s.unicode_len();
    let mut i: usize = 0;
    while i < n
        invariant
            n == s@.len(),
            i <= n,
            forall|j: int| 0 <= j < i ==> s@[j] != c,
        decreases n - i,
    {
        if s.get_char(i) == c {
            return true;
        }
        i = i + 1;
    }
    false
}

/// Whether a room name can be used: not empty, and at most 255 bytes.
pub open spec fn name_valid(name: &str) -> bool {
    name@.len() > 0 && name.len() <= MAX_BYTES
}

/// What is wrong with a room address, if anything: a `:`, a `#`, more than
/// 255 bytes; and whether it can be used, which an empty one cannot.
pub open spec fn address_check(address: &str) -> AddressCheck {
    if has_char(address@, ':') {
        AddressCheck { valid: false, error: Some(AddressError::Colon) }
    } else if has_char(address@, '#') {
        AddressCheck { valid: false, error: Some(AddressError::Hash) }
    } else if address.len() > MAX_BYTES {
        AddressCheck { valid: false, error: Some(AddressError::TooLong) }
    } else if address@.len() == 0 {
        AddressCheck { valid: false, error: None }
    } else {
        AddressCheck { valid: true, error: None }
    }
}

/// Checks the name and, for a public room, the address of a room to create.
pub fn validate_input(room_name: &str, private: bool, room_address: &str) -> (v: Validation)
    ensures
        v.name_valid == name_valid(room_name),
        v.name_too_long == (room_name.len() > MAX_BYTES),
        private ==> v.address is None && v.create_enabled == v.name_valid,
        !private ==> v.address == Some(address_check(room_address))
            && v.create_enabled == (v.name_valid && address_check(room_address).valid),
{
    let too_long = room_name.len() > MAX_BYTES;
    let is_name_valid = !room_name.is_empty() && !too_long;
    if private {
        return Validation { name_valid: is_name_valid, name_too_long: too_long, address: None, create_enabled: is_name_valid };
    }
    let check = if contains_char(room_address, ':') {
        AddressCheck { valid: false, error: Some(AddressError::Colon) }
    } else if contains_char(room_address, '#') {
        AddressCheck { valid: false, error: Some(AddressError::Hash) }
    } else if room_address.len() > MAX_BYTES {
        AddressCheck { valid: false, error: Some(AddressError::TooLong) }
    } else if room_address.is_empty() {
        AddressCheck { valid: false, error: None }
    } else {
        AddressCheck { valid: true, error: None }
    };
    Validation {
        name_valid: is_name_valid,
        name_too_long: too_long,
        address: Some(check),
        create_enabled: is_name_valid && check.valid,
    }
}

/// A request to create a room.
#[derive(Debug)]
pub struct CreateRoomRequest {
    pub name: String,
    /// Whether the room is public.
    pub public: bool,
    /// The alias of a public room: its address after a `#`.
    pub alias: Option<String>,
}

/// The request to create a room named `room_name`, private or public with the
/// address `room_address`.
pub fn create_room(room_name: &str, private: bool, room_address: &str) -> (r: CreateRoomRequest)
    requires
        name_valid(room_name),
    ensures
        r.name@ == room_name@,
        r.public == !private,
        private ==> r.alias is None,
        !private ==> (r.alias matches Some(a) && a@ == seq!['#'] + room_address@),
{
    let alias = if private {
        None
    } else {
        let mut a = String::new();
        let hash = "#";
        proof {
            reveal_strlit("#");
        }
        a.append(hash);
        a.append(room_address);
        Some(a)
    };
    CreateRoomRequest { name: room_name.to_owned(), public: !private, alias }
}

/// What the form shows when creating the room failed: the address is taken
/// when the homeserver says the room is in use; any other error is shown as
/// it is (`None`).
pub fn handle_error(room_in_use: bool) -> (e: Option<AddressError>)
    ensures
        e == if room_in_use { Some(AddressError::Taken) } else { None },
{
    if room_in_use {
        Some(AddressError::Taken)
    } else {
        None
    }
}

} // verus!
