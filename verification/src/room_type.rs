use vstd::prelude::*;

verus! {

/// The category of a room in the sidebar.
#[derive(Clone, Copy, Debug, PartialEq, Eq, Structural)]
pub enum RoomType {
    Invited,
    Favorite,
    Normal,
    LowPriority,
    Left,
    Outdated,
}

/// The categories shown in the sidebar, rooms' and others.
#[derive(Clone, Copy, Debug, PartialEq, Eq, Structural)]
pub enum CategoryType {
    NoCategory,
    VerificationRequest,
    Invited,
    Favorite,
    Normal,
    LowPriority,
    Left,
    Outdated,
}

/// Whether a room of category `from` may be moved to category `to`.
pub open spec fn may_change(from: RoomType, to: RoomType) -> bool {
    match from {
        RoomType::Invited => to == RoomType::Favorite || to == RoomType::Normal || to
            == RoomType::LowPriority || to == RoomType::Left,
        RoomType::Favorite => to == RoomType::Normal || to == RoomType::LowPriority || to
            == RoomType::Left,
        RoomType::Normal => to == RoomType::Favorite || to == RoomType::LowPriority || to
            == RoomType::Left,
        RoomType::LowPriority => to == RoomType::Favorite || to == RoomType::Normal || to
            == RoomType::Left,
        RoomType::Left => to == RoomType::Favorite || to == RoomType::Normal || to
            == RoomType::LowPriority,
        RoomType::Outdated => false,
    }
}

/// The number that stands for a room type.
pub open spec fn room_type_number(t: RoomType) -> u32 {
    match t {
        RoomType::Invited => 0,
        RoomType::Favorite => 1,
        RoomType::Normal => 2,
        RoomType::LowPriority => 3,
        RoomType::Left => 4,
        RoomType::Outdated => 5,
    }
}

/// The sidebar category of a room type.
pub open spec fn category_of(t: RoomType) -> CategoryType {
    match t {
        RoomType::Invited => CategoryType::Invited,
        RoomType::Favorite => CategoryType::Favorite,
        RoomType::Normal => CategoryType::Normal,
        RoomType::LowPriority => CategoryType::LowPriority,
        RoomType::Left => CategoryType::Left,
        RoomType::Outdated => CategoryType::Outdated,
    }
}

impl RoomType {
    /// Check whether this `RoomType` can be changed to `category`.
    pub fn can_change_to(&self, category: &RoomType) -> (b: bool)
        ensures
            b == may_change(*self, *category),
    {
        match self {
            RoomType::Invited => matches!(
                category,
                RoomType::Favorite | RoomType::Normal | RoomType::LowPriority | RoomType::Left
            ),
            RoomType::Favorite => matches!(
                category,
                RoomType::Normal | RoomType::LowPriority | RoomType::Left
            ),
            RoomType::Normal => matches!(
                category,
                RoomType::Favorite | RoomType::LowPriority | RoomType::Left
            ),
            RoomType::LowPriority => matches!(
                category,
                RoomType::Favorite | RoomType::Normal | RoomType::Left
            ),
            RoomType::Left => matches!(
                category,
                RoomType::Favorite | RoomType::Normal | RoomType::LowPriority
            ),
            RoomType::Outdated => false,
        }
    }

    /// The room type of a room that has no stored category.
    pub fn default_type() -> (t: RoomType)
        ensures
            t == RoomType::Normal,
    {
        RoomType::Normal
    }

    /// The number that stands for this room type.
    pub fn to_u32(&self) -> (n: u32)
        ensures
            n == room_type_number(*self),
    {
        match self {
            RoomType::Invited => 0,
            RoomType::Favorite => 1,
            RoomType::Normal => 2,
            RoomType::LowPriority => 3,
            RoomType::Left => 4,
            RoomType::Outdated => 5,
        }
    }

    /// The room type that `number` stands for, or the number back when none
    /// does.
    pub fn try_from_u32(number: u32) -> (res: Result<RoomType, u32>)
        ensures
            match res {
                Ok(t) => room_type_number(t) == number,
                Err(n) => n == number && number > 5,
            },
    {
        match number {
            0 => Ok(RoomType::Invited),
            1 => Ok(RoomType::Favorite),
            2 => Ok(RoomType::Normal),
            3 => Ok(RoomType::LowPriority),
            4 => Ok(RoomType::Left),
            5 => Ok(RoomType::Outdated),
            _ => Err(number),
        }
    }

    /// The sidebar category of this room type.
    pub fn category(&self) -> (c: CategoryType)
        ensures
            c == category_of(*self),
    {
        match self {
            RoomType::Invited => CategoryType::Invited,
            RoomType::Favorite => CategoryType::Favorite,
            RoomType::Normal => CategoryType::Normal,
            RoomType::LowPriority => CategoryType::LowPriority,
            RoomType::Left => CategoryType::Left,
            RoomType::Outdated => CategoryType::Outdated,
        }
    }

    /// The room type of a sidebar category; the categories `None` and
    /// `VerificationRequest` hold no rooms.
    pub fn try_from_category(category_type: &CategoryType) -> (res: Result<RoomType, &'static str>)
        ensures
            match res {
                Ok(t) => category_of(t) == *category_type,
                Err(_) => *category_type == CategoryType::NoCategory || *category_type
                    == CategoryType::VerificationRequest,
            },
            *category_type == CategoryType::NoCategory ==> (res matches Err(m) && m@
                == "CategoryType::None cannot be a RoomType"@),
            *category_type == CategoryType::VerificationRequest ==> (res matches Err(m) && m@
                == "CategoryType::VerificationRequest cannot be a RoomType"@),
    {
        proof {
            reveal_strlit("CategoryType::None cannot be a RoomType");
            reveal_strlit("CategoryType::VerificationRequest cannot be a RoomType");
        }
        match category_type {
            CategoryType::NoCategory => Err("CategoryType::None cannot be a RoomType"),
            CategoryType::Invited => Ok(RoomType::Invited),
            CategoryType::Favorite => Ok(RoomType::Favorite),
            CategoryType::Normal => Ok(RoomType::Normal),
            CategoryType::LowPriority => Ok(RoomType::LowPriority),
            CategoryType::Left => Ok(RoomType::Left),
            CategoryType::Outdated => Ok(RoomType::Outdated),
            CategoryType::VerificationRequest => Err(
                "CategoryType::VerificationRequest cannot be a RoomType",
            ),
        }
    }
}

/// No room type can be changed to itself, to `Invited` or to `Outdated`, and
/// an outdated room cannot be moved at all.
pub proof fn lemma_change_targets(from: RoomType, to: RoomType)
    ensures
        may_change(from, to) ==> from != to,
        may_change(from, to) ==> to != RoomType::Invited && to != RoomType::Outdated,
        from == RoomType::Outdated ==> !may_change(from, to),
{
}

/// Among favorite, normal, low-priority and left rooms every move to another
/// of them is allowed, so the relation is symmetric there.
pub proof fn lemma_change_symmetric_among_joined(from: RoomType, to: RoomType)
    requires
        from != RoomType::Invited && from != RoomType::Outdated,
        to != RoomType::Invited && to != RoomType::Outdated,
        from != to,
    ensures
        may_change(from, to),
        may_change(to, from),
{
}

/// An invited room can go to every category that any other room can go to.
pub proof fn lemma_invited_reaches_all(from: RoomType, to: RoomType)
    requires
        may_change(from, to),
    ensures
        may_change(RoomType::Invited, to),
{
}

/// A room type's number gives the room type back.
pub proof fn lemma_number_round_trip(t: RoomType, n: u32)
    requires
        room_type_number(t) == n,
    ensures
        forall|u: RoomType| room_type_number(u) == n ==> u == t,
{
}

/// A room type's category gives the room type back.
pub proof fn lemma_category_round_trip(t: RoomType, u: RoomType)
    requires
        category_of(t) == category_of(u),
    ensures
        t == u,
{
}

} // verus!
