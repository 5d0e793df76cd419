use vstd::prelude::*;

use crate::room_type::RoomType;
use crate::verification::VerificationState;

verus! {

/// What the sidebar selected for the content pane.
#[derive(Clone, Copy, Debug, PartialEq, Eq, Structural)]
pub enum ContentItem {
    /// A room, by its id, in its category.
    Room { id: u64, category: RoomType },
    /// The entry that opens the room directory.
    Explore,
    /// Another entry of the sidebar.
    OtherEntry,
    /// An identity verification request, by its id.
    Verification { id: u64 },
}

/// The page the content pane shows.
#[derive(Clone, Copy, Debug, PartialEq, Eq, Structural)]
pub enum ContentPage {
    Empty,
    /// The invite of the room with this id.
    Invite(u64),
    /// The history of the room with this id.
    RoomHistory(u64),
    Explore,
    /// The verification request with this id.
    Verification(u64),
}

/// The page for `item`; another entry leaves the page as it is.
pub open spec fn page_for(item: Option<ContentItem>, page: ContentPage) -> ContentPage {
    match item {
        None => ContentPage::Empty,
        Some(ContentItem::Room { id, category }) => if category == RoomType::Invited {
            ContentPage::Invite(id)
        } else {
            ContentPage::RoomHistory(id)
        },
        Some(ContentItem::Explore) => ContentPage::Explore,
        Some(ContentItem::Verification { id }) => ContentPage::Verification(id),
        Some(ContentItem::OtherEntry) => page,
    }
}

/// The content pane: the page of what the sidebar selected.
pub struct Content {
    item: Option<ContentItem>,
    page: ContentPage,
}

impl Content {
    pub closed spec fn item_view(&self) -> Option<ContentItem> {
        self.item
    }

    pub closed spec fn page_view(&self) -> ContentPage {
        self.page
    }

    pub fn new() -> (c: Content)
        ensures
            c.item_view() is None,
            c.page_view() == ContentPage::Empty,
    {
        Content { item: None, page: ContentPage::Empty }
    }

    pub fn item(&self) -> (i: Option<ContentItem>)
        ensures
            i == self.item_view(),
    {
        self.item
    }

    pub fn page(&self) -> (p: ContentPage)
        ensures
            p == self.page_view(),
    {
        self.page
    }

    /// Shows `item`; nothing happens when it is shown already.
    pub fn set_item(&mut self, item: Option<ContentItem>)
        ensures
            final(self).item_view() == item,
            final(self).page_view() == if old(self).item_view() == item {
                old(self).page_view()
            } else {
                page_for(item, old(self).page_view())
            },
    {
        if self.item == item {
            return;
        }
        self.item = item;
        self.set_visible_child();
    }

    /// Shows the page of the item.
    fn set_visible_child(&mut self)
        ensures
            final(self).item_view() == old(self).item_view(),
            final(self).page_view() == page_for(old(self).item_view(), old(self).page_view()),
    {
        self.page = match self.item {
            None => ContentPage::Empty,
            Some(ContentItem::Room { id, category }) => {
                if category == RoomType::Invited {
                    ContentPage::Invite(id)
                } else {
                    ContentPage::RoomHistory(id)
                }
            },
            Some(ContentItem::Explore) => ContentPage::Explore,
            Some(ContentItem::Verification { id }) => ContentPage::Verification(id),
            Some(ContentItem::OtherEntry) => self.page,
        };
    }

    /// The category of the room `id` changed: a room shown moves between its
    /// invite and its history.
    pub fn room_category_changed(&mut self, id: u64, category: RoomType)
        ensures
            old(self).item_view() matches Some(ContentItem::Room { id: shown, .. }) && shown == id ==>
                final(self).item_view() == Some(ContentItem::Room { id, category })
                && final(self).page_view() == page_for(final(self).item_view(), old(self).page_view()),
            !(old(self).item_view() matches Some(ContentItem::Room { id: shown, .. }) && shown == id) ==>
                final(self).item_view() == old(self).item_view() && final(self).page_view() == old(self).page_view(),
    {
        if let Some(ContentItem::Room { id: shown, .. }) = self.item {
            if shown == id {
                self.item = Some(ContentItem::Room { id, category });
                self.set_visible_child();
            }
        }
    }

    /// The verification request `id` changed its state: a request shown that
    /// was cancelled, dismissed or failed is no longer shown.
    pub fn verification_changed(&mut self, id: u64, state: VerificationState)
        ensures
            (old(self).item_view() == Some(ContentItem::Verification { id }) && (state == VerificationState::Cancelled
                || state == VerificationState::Error || state == VerificationState::Dismissed)) ==>
                final(self).item_view() is None && final(self).page_view() == ContentPage::Empty,
            !(old(self).item_view() == Some(ContentItem::Verification { id }) && (state == VerificationState::Cancelled
                || state == VerificationState::Error || state == VerificationState::Dismissed)) ==>
                final(self).item_view() == old(self).item_view() && final(self).page_view() == old(self).page_view(),
    {
        let ended = state == VerificationState::Cancelled || state == VerificationState::Error
            || state == VerificationState::Dismissed;
        if ended && self.item == Some(ContentItem::Verification { id }) {
            self.set_item(None);
        }
    }
}

/// Showing the same item twice shows what showing it once shows.
pub proof fn lemma_same_item_twice(item: Option<ContentItem>, page: ContentPage)
    ensures
        page_for(item, page_for(item, page)) == page_for(item, page),
{
}

} // verus!
