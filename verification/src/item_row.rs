use vstd::prelude::*;

use crate::event::MatrixEvent;
use crate::timeline::ItemType;

verus! {

/// What a row of the room history is given to show.
#[derive(Clone, Copy, Debug, PartialEq, Eq, Structural)]
pub enum RowItem {
    /// An event: a state event or not.
    Event { is_state: bool },
    /// The divider before the events of a day, in year `year`; `current_year`
    /// is the year of today.
    DayDivider { year: i32, current_year: i32 },
    NewMessageDivider,
    LoadingSpinner,
}

/// The label of a divider row.
#[derive(Clone, Copy, Debug, PartialEq, Eq, Structural)]
pub enum DividerLabel {
    /// The date, as "%A, %B %e".
    Day,
    /// The date, as "%A, %B %e, %Y".
    DayWithYear,
    /// "New Messages"
    NewMessages,
}

/// The child widget of a row.
#[derive(Clone, Copy, Debug, PartialEq, Eq, Structural)]
pub enum RowChild {
    MessageRow,
    StateRow,
    DividerRow(DividerLabel),
    Spinner,
}

/// The kind of widget a child is; the row keeps a child of the same kind.
pub open spec fn same_kind(a: RowChild, b: RowChild) -> bool {
    match (a, b) {
        (RowChild::MessageRow, RowChild::MessageRow) => true,
        (RowChild::StateRow, RowChild::StateRow) => true,
        (RowChild::DividerRow(_), RowChild::DividerRow(_)) => true,
        (RowChild::Spinner, RowChild::Spinner) => true,
        _ => false,
    }
}

/// The child that shows `item`: a state row for state events, a message row
/// for other events, and dividers whose date shows the year only when it is
/// not this year.
pub open spec fn row_child(item: RowItem) -> RowChild {
    match item {
        RowItem::Event { is_state } => if is_state {
            RowChild::StateRow
        } else {
            RowChild::MessageRow
        },
        RowItem::DayDivider { year, current_year } => if year == current_year {
            RowChild::DividerRow(DividerLabel::Day)
        } else {
            RowChild::DividerRow(DividerLabel::DayWithYear)
        },
        RowItem::NewMessageDivider => RowChild::DividerRow(DividerLabel::NewMessages),
        RowItem::LoadingSpinner => RowChild::Spinner,
    }
}

/// Whether an event is a state event, as a row tells them apart: a redacted
/// state event is shown as a message.
pub open spec fn shows_as_state(event: Option<MatrixEvent>) -> bool {
    event matches Some(MatrixEvent::State(_))
}

/// What a row is given for the timeline item of type `t`, with the event it
/// stands for when it is an event, and the years of its day and of today.
pub fn row_item(t: &ItemType, event: &Option<MatrixEvent>, year: i32, current_year: i32) -> (r: RowItem)
    ensures
        r == match *t {
            ItemType::Event(_) => RowItem::Event { is_state: shows_as_state(*event) },
            ItemType::DayDivider { .. } => RowItem::DayDivider { year, current_year },
            ItemType::NewMessageDivider => RowItem::NewMessageDivider,
            ItemType::LoadingSpinner => RowItem::LoadingSpinner,
        },
{
    match t {
        ItemType::Event(_) => {
            let is_state = match event {
                Some(MatrixEvent::State(_)) => true,
                _ => false,
            };
            RowItem::Event { is_state }
        },
        ItemType::DayDivider { .. } => RowItem::DayDivider { year, current_year },
        ItemType::NewMessageDivider => RowItem::NewMessageDivider,
        ItemType::LoadingSpinner => RowItem::LoadingSpinner,
    }
}

/// A row of the room history.
pub struct ItemRow {
    /// The item shown.
    item: Option<RowItem>,
    /// The child widget, and how many times it was made anew.
    child: Option<RowChild>,
    made: u64,
}

impl ItemRow {
    pub closed spec fn item_view(&self) -> Option<RowItem> {
        self.item
    }

    pub closed spec fn child_view(&self) -> Option<RowChild> {
        self.child
    }

    /// How many child widgets the row made.
    pub closed spec fn made_view(&self) -> u64 {
        self.made
    }

    pub fn new() -> (r: ItemRow)
        ensures
            r.item_view() is None,
            r.child_view() is None,
            r.made_view() == 0,
    {
        ItemRow { item: None, child: None, made: 0 }
    }

    pub fn item(&self) -> (i: Option<RowItem>)
        ensures
            i == self.item_view(),
    {
        self.item
    }

    pub fn child(&self) -> (c: Option<RowChild>)
        ensures
            c == self.child_view(),
    {
        self.child
    }

    /// Shows `item`, keeping the child widget when it is of the right kind
    /// and making a new one otherwise. Nothing changes in the child for no
    /// item.
    pub fn set_item(&mut self, item: Option<RowItem>)
        requires
            old(self).made_view() < u64::MAX,
        ensures
            final(self).item_view() == item,
            match item {
                Some(i) => final(self).child_view() == Some(row_child(i))
                    && final(self).made_view() == (if old(self).child_view() matches Some(c) && same_kind(c, row_child(i)) {
                        old(self).made_view() as int
                    } else {
                        old(self).made_view() + 1
                    }),
                None => final(self).child_view() == old(self).child_view() && final(self).made_view() == old(self).made_view(),
            },
    {
        if let Some(i) = item {
            let wanted = match i {
                RowItem::Event { is_state } => {
                    if is_state {
                        RowChild::StateRow
                    } else {
                        RowChild::MessageRow
                    }
                },
                RowItem::DayDivider { year, current_year } => {
                    if year == current_year {
                        RowChild::DividerRow(DividerLabel::Day)
                    } else {
                        RowChild::DividerRow(DividerLabel::DayWithYear)
                    }
                },
                RowItem::NewMessageDivider => RowChild::DividerRow(DividerLabel::NewMessages),
                RowItem::LoadingSpinner => RowChild::Spinner,
            };
            let keep = match (self.child, wanted) {
                (Some(RowChild::MessageRow), RowChild::MessageRow) => true,
                (Some(RowChild::StateRow), RowChild::StateRow) => true,
                (Some(RowChild::DividerRow(_)), RowChild::DividerRow(_)) => true,
                (Some(RowChild::Spinner), RowChild::Spinner) => true,
                _ => false,
            };
            if !keep {
                self.made = self.made + 1;
            }
            self.child = Some(wanted);
        }
        self.item = item;
    }
}

} // verus!
