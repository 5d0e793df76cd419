use vstd::prelude::*;

use crate::event::{action_set, event_action_set, EventActionSet};
use crate::strings::{copy_opt, opt_view};

verus! {

/// What the media viewer is given of an event: its id and the media in it.
pub struct ViewerEvent {
    pub event_id: u64,
    pub content: ViewerContent,
}

/// The content of an event, as far as the media viewer reads it.
pub enum ViewerContent {
    Image { body: String },
    Video { body: String },
    File,
    /// Any other content, or none.
    Other,
}

/// The media that the viewer fetches for its event.
#[derive(Clone, Copy, Debug, PartialEq, Eq, Structural)]
pub enum MediaLoad {
    Image,
    Video,
}

/// What the viewer shows in place of its media.
#[derive(Clone, Copy, Debug, PartialEq, Eq, Structural)]
pub enum ViewerMessage {
    /// "Image file not supported"
    ImageUnsupported,
    /// "Could not retrieve image"
    ImageUnavailable,
    /// "Could not retrieve video"
    VideoUnavailable,
}

/// What the viewer shows.
#[derive(Clone, Copy, Debug, PartialEq, Eq, Structural)]
pub enum ViewerChild {
    /// Nothing yet.
    Empty,
    /// The image.
    Picture,
    /// The video, playing.
    Video,
    /// A message in place of the media.
    Message(ViewerMessage),
}

/// How the media is placed across the viewer.
#[derive(Clone, Copy, Debug, PartialEq, Eq, Structural)]
pub enum MediaAlign {
    /// Stretched to the viewer's width.
    Fill,
    /// At its own width, centered.
    Center,
}

/// When the header bar folds over the media.
#[derive(Clone, Copy, Debug, PartialEq, Eq, Structural)]
pub enum FoldPolicy {
    Always,
    Never,
}

/// Whether the viewer shows the event `id`: the same id, or no event on
/// either side.
pub open spec fn same_event(a: Option<u64>, b: Option<u64>) -> bool {
    a == b
}

/// A viewer of the image or video of one event.
pub struct MediaViewer {
    event: Option<u64>,
    body: Option<String>,
    fullscreened: bool,
    halign: MediaAlign,
    fold_policy: FoldPolicy,
    reveal_flap: bool,
    actions: Option<EventActionSet>,
    child: ViewerChild,
}

/// The placement of the media and the folding of the header bar follow
/// whether the viewer is fullscreen: the media is stretched and the header
/// bar folds over it in fullscreen only.
pub open spec fn layout_follows(fullscreened: bool, halign: MediaAlign, fold: FoldPolicy) -> bool {
    &&& (halign == MediaAlign::Fill) == fullscreened
    &&& (fold == FoldPolicy::Always) == fullscreened
}

impl MediaViewer {
    pub closed spec fn event_view(&self) -> Option<u64> {
        self.event
    }

    pub closed spec fn body_view(&self) -> Option<Seq<char>> {
        opt_view(self.body)
    }

    pub closed spec fn fullscreened_view(&self) -> bool {
        self.fullscreened
    }

    pub closed spec fn halign_view(&self) -> MediaAlign {
        self.halign
    }

    pub closed spec fn fold_view(&self) -> FoldPolicy {
        self.fold_policy
    }

    pub closed spec fn flap_revealed(&self) -> bool {
        self.reveal_flap
    }

    pub closed spec fn actions_view(&self) -> Option<EventActionSet> {
        self.actions
    }

    pub closed spec fn child_view(&self) -> ViewerChild {
        self.child
    }

    /// The layout follows the fullscreen state.
    pub open spec fn wf(&self) -> bool {
        layout_follows(self.fullscreened_view(), self.halign_view(), self.fold_view())
    }

    /// A viewer with no event, not fullscreen.
    pub fn new() -> (v: MediaViewer)
        ensures
            v.wf(),
            v.event_view() is None,
            v.body_view() is None,
            !v.fullscreened_view(),
            !v.flap_revealed(),
            v.actions_view() is None,
            v.child_view() == ViewerChild::Empty,
    {
        MediaViewer {
            event: None,
            body: None,
            fullscreened: false,
            halign: MediaAlign::Center,
            fold_policy: FoldPolicy::Never,
            reveal_flap: false,
            actions: None,
            child: ViewerChild::Empty,
        }
    }

    /// The id of the event shown.
    pub fn event(&self) -> (e: Option<u64>)
        ensures
            e == self.event_view(),
    {
        self.event
    }

    /// The body of the media's message.
    pub fn body(&self) -> (b: Option<String>)
        ensures
            opt_view(b) == self.body_view(),
    {
        copy_opt(&self.body)
    }

    /// Sets the body of the media's message.
    pub fn set_body(&mut self, body: Option<String>)
        ensures
            final(self).body_view() == opt_view(body),
            final(self).event_view() == old(self).event_view(),
            final(self).fullscreened_view() == old(self).fullscreened_view(),
            final(self).halign_view() == old(self).halign_view(),
            final(self).fold_view() == old(self).fold_view(),
            final(self).flap_revealed() == old(self).flap_revealed(),
            final(self).actions_view() == old(self).actions_view(),
            final(self).child_view() == old(self).child_view(),
    {
        self.body = body;
    }

    /// Whether the viewer is fullscreen.
    pub fn fullscreened(&self) -> (b: bool)
        ensures
            b == self.fullscreened_view(),
    {
        self.fullscreened
    }

    /// How the media is placed.
    pub fn halign(&self) -> (a: MediaAlign)
        ensures
            a == self.halign_view(),
    {
        self.halign
    }

    /// When the header bar folds over the media.
    pub fn fold_policy(&self) -> (f: FoldPolicy)
        ensures
            f == self.fold_view(),
    {
        self.fold_policy
    }

    /// Whether the header bar is revealed over the media.
    pub fn reveal_flap(&self) -> (b: bool)
        ensures
            b == self.flap_revealed(),
    {
        self.reveal_flap
    }

    /// The actions offered on the event.
    pub fn actions(&self) -> (a: Option<EventActionSet>)
        ensures
            a == self.actions_view(),
    {
        self.actions
    }

    /// What the viewer shows.
    pub fn child(&self) -> (c: ViewerChild)
        ensures
            c == self.child_view(),
    {
        self.child
    }

    /// Shows `event`. The same event again changes nothing. A new event
    /// gets its actions, and an image or video its body; the viewer then
    /// fetches that media, which this returns with the event's id. No event,
    /// or one with other content, fetches nothing and keeps the body.
    pub fn set_event(&mut self, event: Option<ViewerEvent>) -> (load: Option<(u64, MediaLoad)>)
        requires
            old(self).wf(),
        ensures
            final(self).wf(),
            final(self).fullscreened_view() == old(self).fullscreened_view(),
            final(self).flap_revealed() == old(self).flap_revealed(),
            final(self).child_view() == old(self).child_view(),
            ({
                let id = match event {
                    Some(e) => Some(e.event_id),
                    None => None,
                };
                if id == old(self).event_view() {
                    &&& load is None
                    &&& final(self).event_view() == old(self).event_view()
                    &&& final(self).body_view() == old(self).body_view()
                    &&& final(self).actions_view() == old(self).actions_view()
                } else {
                    &&& final(self).event_view() == id
                    &&& match event {
                        None => {
                            &&& load is None
                            &&& final(self).body_view() == old(self).body_view()
                            &&& final(self).actions_view() == old(self).actions_view()
                        },
                        Some(e) => {
                            &&& final(self).actions_view() == Some(action_set(e.content is File))
                            &&& match e.content {
                                ViewerContent::Image { body } => load == Some((e.event_id, MediaLoad::Image))
                                    && final(self).body_view() == Some(body@),
                                ViewerContent::Video { body } => load == Some((e.event_id, MediaLoad::Video))
                                    && final(self).body_view() == Some(body@),
                                _ => load is None && final(self).body_view() == old(self).body_view(),
                            }
                        },
                    }
                }
            }),
    {
        let id = match &event {
            Some(e) => Some(e.event_id),
            None => None,
        };
        let same = match (id, self.event) {
            (None, None) => true,
            (Some(a), Some(b)) => a == b,
            _ => false,
        };
        if same {
            return None;
        }
        self.event = id;
        match event {
            None => None,
            Some(e) => {
                let is_file = matches!(&e.content, ViewerContent::File);
                self.actions = Some(event_action_set(is_file));
                match e.content {
                    ViewerContent::Image { body } => {
                        self.body = Some(body);
                        Some((e.event_id, MediaLoad::Image))
                    },
                    ViewerContent::Video { body } => {
                        self.body = Some(body);
                        Some((e.event_id, MediaLoad::Video))
                    },
                    _ => None,
                }
            },
        }
    }

    /// The image was fetched or not, and where it was, decoded or not: the
    /// viewer shows it, or says why it cannot.
    pub fn image_loaded(&mut self, fetched: bool, decoded: bool)
        requires
            old(self).wf(),
        ensures
            final(self).wf(),
            final(self).child_view() == if !fetched {
                ViewerChild::Message(ViewerMessage::ImageUnavailable)
            } else if decoded {
                ViewerChild::Picture
            } else {
                ViewerChild::Message(ViewerMessage::ImageUnsupported)
            },
            final(self).event_view() == old(self).event_view(),
            final(self).body_view() == old(self).body_view(),
            final(self).fullscreened_view() == old(self).fullscreened_view(),
            final(self).flap_revealed() == old(self).flap_revealed(),
    {
        self.child = if !fetched {
            ViewerChild::Message(ViewerMessage::ImageUnavailable)
        } else if decoded {
            ViewerChild::Picture
        } else {
            ViewerChild::Message(ViewerMessage::ImageUnsupported)
        };
    }

    /// The video was fetched or not: the viewer plays it, or says that it
    /// could not get it.
    pub fn video_loaded(&mut self, fetched: bool)
        requires
            old(self).wf(),
        ensures
            final(self).wf(),
            final(self).child_view() == if fetched {
                ViewerChild::Video
            } else {
                ViewerChild::Message(ViewerMessage::VideoUnavailable)
            },
            final(self).event_view() == old(self).event_view(),
            final(self).body_view() == old(self).body_view(),
            final(self).fullscreened_view() == old(self).fullscreened_view(),
            final(self).flap_revealed() == old(self).flap_revealed(),
    {
        self.child = if fetched {
            ViewerChild::Video
        } else {
            ViewerChild::Message(ViewerMessage::VideoUnavailable)
        };
    }

    /// Enters or leaves fullscreen: in fullscreen the media is stretched and
    /// the header bar folds over it.
    pub fn set_fullscreened(&mut self, fullscreened: bool)
        requires
            old(self).wf(),
        ensures
            final(self).wf(),
            final(self).fullscreened_view() == fullscreened,
            final(self).event_view() == old(self).event_view(),
            final(self).body_view() == old(self).body_view(),
            final(self).flap_revealed() == old(self).flap_revealed(),
            final(self).child_view() == old(self).child_view(),
            final(self).actions_view() == old(self).actions_view(),
    {
        if fullscreened == self.fullscreened {
            return;
        }
        self.fullscreened = fullscreened;
        if fullscreened {
            self.halign = MediaAlign::Fill;
            self.fold_policy = FoldPolicy::Always;
        } else {
            self.halign = MediaAlign::Center;
            self.fold_policy = FoldPolicy::Never;
        }
    }

    /// Reveals or hides the header bar; only in fullscreen, where it folds.
    pub fn reveal_headerbar(&mut self, revealed: bool)
        requires
            old(self).wf(),
        ensures
            final(self).wf(),
            final(self).flap_revealed() == if old(self).fullscreened_view() {
                revealed
            } else {
                old(self).flap_revealed()
            },
            final(self).fullscreened_view() == old(self).fullscreened_view(),
            final(self).halign_view() == old(self).halign_view(),
            final(self).fold_view() == old(self).fold_view(),
            final(self).event_view() == old(self).event_view(),
            final(self).body_view() == old(self).body_view(),
            final(self).child_view() == old(self).child_view(),
            final(self).actions_view() == old(self).actions_view(),
    {
        if self.fullscreened {
            self.reveal_flap = revealed;
        }
    }

    /// The pointer moved; `near_top` tells whether it is within the top
    /// fifty pixels, where it reveals the header bar.
    pub fn handle_motion(&mut self, near_top: bool)
        requires
            old(self).wf(),
        ensures
            final(self).wf(),
            final(self).flap_revealed() == if near_top && old(self).fullscreened_view() {
                true
            } else {
                old(self).flap_revealed()
            },
            final(self).fullscreened_view() == old(self).fullscreened_view(),
            final(self).event_view() == old(self).event_view(),
            final(self).child_view() == old(self).child_view(),
    {
        if near_top {
            self.reveal_headerbar(true);
        }
    }

    /// A touch reveals the header bar.
    pub fn handle_touch(&mut self)
        requires
            old(self).wf(),
        ensures
            final(self).wf(),
            final(self).flap_revealed() == (old(self).fullscreened_view() || old(self).flap_revealed()),
            final(self).fullscreened_view() == old(self).fullscreened_view(),
            final(self).event_view() == old(self).event_view(),
            final(self).child_view() == old(self).child_view(),
    {
        self.reveal_headerbar(true);
    }

    /// Whether a click of `n_pressed` presses toggles fullscreen: a double
    /// click does.
    pub fn handle_click(n_pressed: i32) -> (toggle: bool)
        ensures
            toggle == (n_pressed == 2),
    {
        n_pressed == 2
    }
}

/// The name of the file a video is kept in to be played: the media's id and
/// its file name, joined by an underscore.
pub fn video_file_name(uid: &str, filename: &str) -> (name: String)
    ensures
        name@ == uid@ + seq!['_'] + filename@,
{
    let mut name = uid.to_string();
    name.append("_");
    name.append(filename);
    proof {
        reveal_strlit("_");
    }
    name
}

} // verus!
