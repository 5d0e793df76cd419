use vstd::prelude::*;

verus! {

pub const MAX_THUMBNAIL_WIDTH: i32 = 600;
pub const MAX_THUMBNAIL_HEIGHT: i32 = 400;
pub const FALLBACK_WIDTH: i32 = 480;
pub const FALLBACK_HEIGHT: i32 = 360;
pub const MAX_VIDEO_WIDTH: i32 = 320;
pub const MAX_VIDEO_HEIGHT: i32 = 240;

/// The direction a size is asked for.
#[derive(Clone, Copy, Debug, PartialEq, Eq, Structural)]
pub enum Orientation {
    Horizontal,
    Vertical,
}

/// The type of media previewed.
#[derive(Clone, Copy, Debug, PartialEq, Eq, Structural)]
pub enum MediaType {
    Image,
    Sticker,
    Video,
}

/// The state of the media.
#[derive(Clone, Copy, Debug, PartialEq, Eq, Structural)]
pub enum MediaState {
    Initial,
    Loading,
    Ready,
    Error,
}

/// The smaller of two integers.
pub open spec fn min_int(a: int, b: int) -> int {
    if a <= b {
        a
    } else {
        b
    }
}

/// Integer division rounding toward zero, as Rust's `/` does.
pub open spec fn trunc_div(x: int, d: int) -> int {
    if x == 0 {
        0
    } else if x > 0 && d > 0 {
        x / d
    } else if x < 0 && d < 0 {
        (-x) / (-d)
    } else if x < 0 {
        -((-x) / d)
    } else {
        -(x / (-d))
    }
}

/// `other` scaled by `natural / natural_other`, without going past
/// `natural_other`: the size of one side of a picture whose other side is
/// `other`, so that the picture keeps its proportions and is not upscaled.
pub open spec fn scaled(other: int, natural: int, natural_other: int) -> int {
    trunc_div(min_int(other, natural_other) * natural, natural_other)
}

/// Whether `scaled` can be computed with `i32`s, as Rust computes it.
pub open spec fn scalable(other: int, natural: int, natural_other: int) -> bool {
    &&& natural_other != 0
    &&& i32::MIN <= min_int(other, natural_other) * natural <= i32::MAX
    &&& i32::MIN <= scaled(other, natural, natural_other) <= i32::MAX
}

fn min_i32(a: i32, b: i32) -> (m: i32)
    ensures
        m == min_int(a as int, b as int),
{
    if a <= b {
        a
    } else {
        b
    }
}

fn scale(other: i32, natural: i32, natural_other: i32) -> (s: i32)
    requires
        scalable(other as int, natural as int, natural_other as int),
    ensures
        s == scaled(other as int, natural as int, natural_other as int),
{
    let limited = min_i32(other, natural_other);
    let product = limited * natural;
    match product.checked_div(natural_other) {
        Some(q) => q,
        None => 0,
    }
}

/// The sizes of the media in the orientation `orientation`: its own, the
/// largest, the one used when nothing is known, and the other side's own and
/// largest.
pub open spec fn media_sides(width: i32, height: i32, orientation: Orientation) -> (i32, i32, i32, i32, i32) {
    if orientation == Orientation::Vertical {
        (height, MAX_THUMBNAIL_HEIGHT, FALLBACK_HEIGHT, width, MAX_THUMBNAIL_WIDTH)
    } else {
        (width, MAX_THUMBNAIL_WIDTH, FALLBACK_WIDTH, height, MAX_THUMBNAIL_HEIGHT)
    }
}

/// The other side's size given to the media's child: `for_size`, limited to
/// the largest size of that side.
pub open spec fn media_other(width: i32, height: i32, orientation: Orientation, for_size: i32) -> int {
    min_int(for_size as int, media_sides(width, height, orientation).4 as int)
}

/// Whether the media's natural size can be computed for these sizes: where its
/// own sizes are known, the arithmetic fits.
pub open spec fn media_measurable(width: i32, height: i32, orientation: Orientation, for_size: i32) -> bool {
    let (natural, _max, _fallback, natural_other, _max_other) = media_sides(width, height, orientation);
    natural > 0 && natural_other > 0 ==> scalable(media_other(width, height, orientation, for_size), natural as int, natural_other as int)
}

/// The natural size of the media in `orientation` for the other side's size
/// `for_size`: scaled from the media's own sizes when known, else the child's
/// natural size, else the fallback; never more than the largest size.
pub open spec fn media_natural(width: i32, height: i32, orientation: Orientation, for_size: i32, child_natural: Option<i32>) -> int {
    let (natural, max, fallback, natural_other, _max_other) = media_sides(width, height, orientation);
    let natural = if natural > 0 && natural_other > 0 {
        scaled(media_other(width, height, orientation, for_size), natural as int, natural_other as int)
    } else {
        match child_natural {
            Some(n) => n as int,
            None => fallback as int,
        }
    };
    min_int(natural, max as int)
}

/// The width allocated to a child of height `height`: scaled from the media's
/// own sizes when both are known, else the child's natural width.
pub open spec fn allocated_width(width: i32, height: i32, alloc_height: i32, child_natural_width: i32) -> int {
    if height > 0 && width > 0 {
        trunc_div(alloc_height * width, height as int)
    } else {
        child_natural_width as int
    }
}

/// Whether `allocated_width` can be computed with `i32`s.
pub open spec fn allocatable(width: i32, height: i32, alloc_height: i32) -> bool {
    height > 0 && width > 0 ==> i32::MIN <= alloc_height * width <= i32::MAX
}

/// The size of one side of a media, as `width` or `height` of a media
/// message's info gives it: -1 where the info has none, the value itself
/// where it fits in an `i32`, and the largest `i32` for a larger value.
pub open spec fn side_of(v: Option<u64>) -> i32 {
    match v {
        None => -1i32,
        Some(u) => if u <= i32::MAX {
            u as i32
        } else {
            i32::MAX
        },
    }
}

/// One side of a media from its info.
fn side(v: Option<u64>) -> (s: i32)
    ensures
        s == side_of(v),
{
    match v {
        None => -1,
        Some(u) => {
            if u <= 0x7fff_ffffu64 {
                u as i32
            } else {
                i32::MAX
            }
        },
    }
}

/// Gets the width and height of the full image in info.
///
/// Returns a (width, height) tuple with either value set to -1 if it wasn't found.
pub fn get_width_height(info: Option<(Option<u64>, Option<u64>)>) -> (r: (i32, i32))
    ensures
        r == match info {
            Some((w, h)) => (side_of(w), side_of(h)),
            None => (-1i32, -1i32),
        },
        r.0 == -1 <==> (info matches Some((w, _)) ==> w is None),
        r.1 == -1 <==> (info matches Some((_, h)) ==> h is None),
{
    match info {
        Some((w, h)) => (side(w), side(h)),
        None => (-1, -1),
    }
}

/// What the media asks for from the server.
#[derive(Clone, Copy, Debug, PartialEq, Eq, Structural)]
pub enum MediaRequest {
    /// A thumbnail scaled to 320×240.
    Thumbnail,
    /// The whole file.
    File,
}

/// What a request for media brought.
#[derive(Clone, Copy, Debug, PartialEq, Eq, Structural)]
pub enum MediaResponse {
    /// The data.
    Data,
    /// An answer without data.
    NoData,
    /// An error.
    Failed,
}

/// The child shown once the data came.
#[derive(Debug)]
pub enum MediaChild {
    /// A picture of the data; for a sticker, with its body as tooltip and
    /// without the thumbnail style.
    Picture { tooltip: Option<String>, thumbnail_style: bool },
    /// A muted video player of the data, stored in the cache under this name.
    Video { file_name: String },
}

/// What the media does next after a response.
#[derive(Debug)]
pub enum MediaStep {
    /// Ask for more.
    Request(MediaRequest),
    /// Show this child: the media is ready.
    Show(MediaChild),
    /// Show the error overlay, with "Could not retrieve media".
    Fail,
}

/// The overlays shown in a state: the spinner, and the error icon.
pub open spec fn overlays(state: MediaState) -> (bool, bool) {
    match state {
        MediaState::Initial | MediaState::Loading => (true, false),
        MediaState::Ready => (false, false),
        MediaState::Error => (false, true),
    }
}

/// A widget displaying a media message in the timeline.
pub struct MessageMedia {
    /// The type of media previewed with this image.
    media_type: MediaType,
    /// The intended display width of the full image.
    width: i32,
    /// The intended display height of the full image.
    height: i32,
    /// The "body" of the image to show as a tooltip. Only used for stickers.
    body: Option<String>,
    /// The state of the media.
    state: MediaState,
    /// Whether the spinner overlay is shown.
    spinner_visible: bool,
    /// Whether the error overlay is shown.
    error_visible: bool,
}

impl MessageMedia {
    pub closed spec fn type_view(&self) -> MediaType {
        self.media_type
    }

    pub closed spec fn width_view(&self) -> i32 {
        self.width
    }

    pub closed spec fn height_view(&self) -> i32 {
        self.height
    }

    pub closed spec fn body_view(&self) -> Option<Seq<char>> {
        match self.body {
            Some(b) => Some(b@),
            None => None,
        }
    }

    pub closed spec fn state_view(&self) -> MediaState {
        self.state
    }

    /// The overlays shown: the spinner, and the error icon.
    pub closed spec fn overlays_view(&self) -> (bool, bool) {
        (self.spinner_visible, self.error_visible)
    }

    /// A video has a body, which names its file; the overlays follow the
    /// state.
    pub closed spec fn wf(&self) -> bool {
        &&& (self.media_type == MediaType::Video ==> self.body is Some)
        &&& (self.spinner_visible, self.error_visible) == overlays(self.state)
    }

    /// A media widget for an image of the given sizes.
    pub fn image(width: i32, height: i32) -> (m: MessageMedia)
        ensures
            m.wf(),
            m.type_view() == MediaType::Image,
            m.width_view() == width && m.height_view() == height,
            m.body_view() is None,
            m.state_view() == MediaState::Initial,
    {
        MessageMedia {
            media_type: MediaType::Image,
            width,
            height,
            body: None,
            state: MediaState::Initial,
            spinner_visible: true,
            error_visible: false,
        }
    }

    /// A media widget for a sticker of the given sizes and body.
    pub fn sticker(width: i32, height: i32, body: String) -> (m: MessageMedia)
        ensures
            m.wf(),
            m.type_view() == MediaType::Sticker,
            m.width_view() == width && m.height_view() == height,
            m.body_view() == Some(body@),
            m.state_view() == MediaState::Initial,
    {
        MessageMedia {
            media_type: MediaType::Sticker,
            width,
            height,
            body: Some(body),
            state: MediaState::Initial,
            spinner_visible: true,
            error_visible: false,
        }
    }

    /// A media widget for a video of the given sizes and body.
    pub fn video(width: i32, height: i32, body: String) -> (m: MessageMedia)
        ensures
            m.wf(),
            m.type_view() == MediaType::Video,
            m.width_view() == width && m.height_view() == height,
            m.body_view() == Some(body@),
            m.state_view() == MediaState::Initial,
    {
        MessageMedia {
            media_type: MediaType::Video,
            width,
            height,
            body: Some(body),
            state: MediaState::Initial,
            spinner_visible: true,
            error_visible: false,
        }
    }

    pub fn media_type(&self) -> (t: MediaType)
        ensures
            t == self.type_view(),
    {
        self.media_type
    }

    pub fn body(&self) -> (b: Option<String>)
        ensures
            match b {
                Some(s) => self.body_view() == Some(s@),
                None => self.body_view() is None,
            },
    {
        match &self.body {
            Some(b) => Some(b.clone()),
            None => None,
        }
    }

    pub fn state(&self) -> (s: MediaState)
        ensures
            s == self.state_view(),
    {
        self.state
    }

    /// The overlays shown: the spinner, and the error icon.
    pub fn overlays(&self) -> (o: (bool, bool))
        ensures
            o == self.overlays_view(),
    {
        (self.spinner_visible, self.error_visible)
    }

    fn set_state(&mut self, state: MediaState)
        requires
            old(self).wf(),
        ensures
            final(self).wf(),
            final(self).state_view() == state,
            final(self).type_view() == old(self).type_view(),
            final(self).body_view() == old(self).body_view(),
            final(self).width_view() == old(self).width_view(),
            final(self).height_view() == old(self).height_view(),
    {
        if self.state == state {
            return;
        }
        match state {
            MediaState::Loading | MediaState::Initial => {
                self.spinner_visible = true;
                self.error_visible = false;
            },
            MediaState::Ready => {
                self.spinner_visible = false;
                self.error_visible = false;
            },
            MediaState::Error => {
                self.spinner_visible = false;
                self.error_visible = true;
            },
        }
        self.state = state;
    }

    /// Starts loading the media: a thumbnail first, unless it is a video or
    /// has none (`has_thumbnail`), else the whole file.
    pub fn build(&mut self, has_thumbnail: bool) -> (r: MediaRequest)
        requires
            old(self).wf(),
        ensures
            final(self).wf(),
            final(self).state_view() == MediaState::Loading,
            r == (if old(self).type_view() != MediaType::Video && has_thumbnail {
                MediaRequest::Thumbnail
            } else {
                MediaRequest::File
            }),
            final(self).type_view() == old(self).type_view(),
            final(self).body_view() == old(self).body_view(),
            final(self).width_view() == old(self).width_view(),
            final(self).height_view() == old(self).height_view(),
    {
        self.set_state(MediaState::Loading);
        if self.media_type != MediaType::Video && has_thumbnail {
            MediaRequest::Thumbnail
        } else {
            MediaRequest::File
        }
    }

    /// Takes the response to `request`: a thumbnail that did not come is asked
    /// for as the whole file; data makes the media ready, and a file that did
    /// not come, an error.
    pub fn handle_response(&mut self, request: MediaRequest, response: MediaResponse) -> (step: MediaStep)
        requires
            old(self).wf(),
        ensures
            final(self).wf(),
            final(self).type_view() == old(self).type_view(),
            final(self).body_view() == old(self).body_view(),
            final(self).width_view() == old(self).width_view(),
            final(self).height_view() == old(self).height_view(),
            response == MediaResponse::Data ==> final(self).state_view() == MediaState::Ready && match step {
                MediaStep::Show(MediaChild::Picture { tooltip, thumbnail_style }) =>
                    old(self).type_view() != MediaType::Video
                    && thumbnail_style == (old(self).type_view() != MediaType::Sticker)
                    && (old(self).type_view() == MediaType::Sticker ==> match tooltip {
                        Some(t) => old(self).body_view() == Some(t@),
                        None => old(self).body_view() is None,
                    })
                    && (old(self).type_view() == MediaType::Image ==> tooltip is None),
                MediaStep::Show(MediaChild::Video { file_name }) =>
                    old(self).type_view() == MediaType::Video && old(self).body_view() == Some(file_name@),
                _ => false,
            },
            response != MediaResponse::Data && request == MediaRequest::Thumbnail ==>
                (step matches MediaStep::Request(MediaRequest::File)) && final(self).state_view() == old(self).state_view(),
            response != MediaResponse::Data && request == MediaRequest::File ==>
                (step matches MediaStep::Fail) && final(self).state_view() == MediaState::Error,
    {
        match response {
            MediaResponse::Data => {
                let child = match self.media_type {
                    MediaType::Image => MediaChild::Picture { tooltip: None, thumbnail_style: true },
                    MediaType::Sticker => MediaChild::Picture { tooltip: self.body(), thumbnail_style: false },
                    MediaType::Video => {
                        let name = match &self.body {
                            Some(b) => b.clone(),
                            None => String::new(),
                        };
                        MediaChild::Video { file_name: name }
                    },
                };
                self.set_state(MediaState::Ready);
                MediaStep::Show(child)
            },
            _ => {
                match request {
                    MediaRequest::Thumbnail => MediaStep::Request(MediaRequest::File),
                    MediaRequest::File => {
                        self.set_state(MediaState::Error);
                        MediaStep::Fail
                    },
                }
            },
        }
    }

    /// The other side's size to measure the child with, for `for_size`.
    pub fn measure_other(&self, orientation: Orientation, for_size: i32) -> (o: i32)
        ensures
            o == media_other(self.width_view(), self.height_view(), orientation, for_size),
    {
        let max_other = if orientation == Orientation::Vertical {
            MAX_THUMBNAIL_WIDTH
        } else {
            MAX_THUMBNAIL_HEIGHT
        };
        min_i32(for_size, max_other)
    }

    /// The minimum, natural and baseline sizes of the media in `orientation`
    /// for the other side's size `for_size`. `child_natural` is the natural
    /// size of the media's child for the other side's size that
    /// `measure_other` gives, where it has a child.
    pub fn measure(&self, orientation: Orientation, for_size: i32, child_natural: Option<i32>) -> (r: (i32, i32, i32, i32))
        requires
            media_measurable(self.width_view(), self.height_view(), orientation, for_size),
        ensures
            r == (0i32, media_natural(self.width_view(), self.height_view(), orientation, for_size, child_natural) as i32, -1i32, -1i32),
    {
        let (natural, max, fallback, natural_other, max_other) = if orientation == Orientation::Vertical {
            (self.height, MAX_THUMBNAIL_HEIGHT, FALLBACK_HEIGHT, self.width, MAX_THUMBNAIL_WIDTH)
        } else {
            (self.width, MAX_THUMBNAIL_WIDTH, FALLBACK_WIDTH, self.height, MAX_THUMBNAIL_HEIGHT)
        };
        let other = min_i32(for_size, max_other);
        let natural = if natural > 0 && natural_other > 0 {
            scale(other, natural, natural_other)
        } else {
            match child_natural {
                Some(n) => n,
                None => fallback,
            }
        };
        let size = min_i32(natural, max);
        (0, size, -1, -1)
    }

    /// The width allocated to the media's child for the height `height`, or
    /// `width` where it has no child. `child_natural_width` is the child's
    /// natural width for `height`, where it has a child.
    pub fn size_allocate(&self, width: i32, height: i32, child_natural_width: Option<i32>) -> (w: i32)
        requires
            allocatable(self.width_view(), self.height_view(), height),
        ensures
            w == match child_natural_width {
                Some(n) => allocated_width(self.width_view(), self.height_view(), height, n) as i32,
                None => width,
            },
    {
        match child_natural_width {
            Some(n) => {
                if self.height > 0 && self.width > 0 {
                    let product = height * self.width;
                    match product.checked_div(self.height) {
                        Some(q) => q,
                        None => 0,
                    }
                } else {
                    n
                }
            },
            None => width,
        }
    }
}

/// The natural size of a video in `orientation` for the other side's size
/// `for_size`: the other side is limited to 320×240, the size is scaled from
/// the video's own sizes when both are known, else the child's natural size,
/// and limited to 320×240 too.
pub open spec fn video_natural(width: i32, height: i32, orientation: Orientation, for_size: i32, child_natural: i32) -> int {
    let (natural, max, natural_other, max_other) = if orientation == Orientation::Vertical {
        (height, MAX_VIDEO_HEIGHT, width, MAX_VIDEO_WIDTH)
    } else {
        (width, MAX_VIDEO_WIDTH, height, MAX_VIDEO_HEIGHT)
    };
    let other = min_int(for_size as int, max_other as int);
    let natural = if height > 0 && width > 0 {
        scaled(other, natural as int, natural_other as int)
    } else {
        child_natural as int
    };
    min_int(natural, max as int)
}

/// Whether a video's natural size can be computed with `i32`s.
pub open spec fn video_measurable(width: i32, height: i32, orientation: Orientation, for_size: i32) -> bool {
    let (natural, natural_other, max_other) = if orientation == Orientation::Vertical {
        (height, width, MAX_VIDEO_WIDTH)
    } else {
        (width, height, MAX_VIDEO_HEIGHT)
    };
    height > 0 && width > 0 ==> scalable(min_int(for_size as int, max_other as int), natural as int, natural_other as int)
}

/// The sizes of a video message of the given sizes in `orientation` for the
/// other side's size `for_size`; `child_natural` is the natural size of its
/// child, where it has one, for the other side limited to 320×240.
pub fn video_measure(width: i32, height: i32, orientation: Orientation, for_size: i32, child_natural: Option<i32>) -> (r: (i32, i32, i32, i32))
    requires
        video_measurable(width, height, orientation, for_size),
    ensures
        r == match child_natural {
            Some(n) => (0i32, video_natural(width, height, orientation, for_size, n) as i32, -1i32, -1i32),
            None => (0i32, 0i32, -1i32, -1i32),
        },
{
    match child_natural {
        Some(n) => {
            let (natural, max, natural_other, max_other) = if orientation == Orientation::Vertical {
                (height, MAX_VIDEO_HEIGHT, width, MAX_VIDEO_WIDTH)
            } else {
                (width, MAX_VIDEO_WIDTH, height, MAX_VIDEO_HEIGHT)
            };
            let other = min_i32(for_size, max_other);
            let natural = if height > 0 && width > 0 {
                scale(other, natural, natural_other)
            } else {
                n
            };
            (0, min_i32(natural, max), -1, -1)
        },
        None => (0, 0, -1, -1),
    }
}

/// A picture is not upscaled: where its sides are known and positive and the
/// other side asked for is not negative, the scaled side is at most its own.
pub proof fn lemma_not_upscaled(other: int, natural: int, natural_other: int)
    requires
        0 <= other,
        0 < natural,
        0 < natural_other,
    ensures
        0 <= scaled(other, natural, natural_other) <= natural,
{
    let o = min_int(other, natural_other);
    assert(0 <= o * natural <= natural_other * natural) by (nonlinear_arith)
        requires
            0 <= o <= natural_other,
            0 < natural,
    ;
    assert((o * natural) / natural_other <= (natural_other * natural) / natural_other) by (nonlinear_arith)
        requires
            0 <= o * natural <= natural_other * natural,
            0 < natural_other,
    ;
    assert((natural_other * natural) / natural_other == natural) by (nonlinear_arith)
        requires
            0 < natural_other,
    ;
    assert(0 <= (o * natural) / natural_other) by (nonlinear_arith)
        requires
            0 <= o * natural,
            0 < natural_other,
    ;
}

/// A media is never measured larger than its largest size.
pub proof fn lemma_measure_at_most_max(width: i32, height: i32, orientation: Orientation, for_size: i32, child_natural: Option<i32>)
    ensures
        media_natural(width, height, orientation, for_size, child_natural) <= media_sides(width, height, orientation).1,
{
}

/// The size an image message asks its child to be measured for: in height,
/// for a width limited to 320; in width, for the size given.
pub fn image_measure_for(orientation: Orientation, for_size: i32) -> (s: i32)
    ensures
        s == if orientation == Orientation::Vertical {
            min_int(for_size as int, MAX_VIDEO_WIDTH as int)
        } else {
            for_size as int
        },
{
    if orientation == Orientation::Vertical {
        min_i32(for_size, MAX_VIDEO_WIDTH)
    } else {
        for_size
    }
}

/// The sizes of an image message of the given sizes in `orientation` for the
/// other side's size `for_size`; `child` is what its child measures for the
/// size `image_measure_for` gives, where it has one. In height, the image is
/// scaled from its own sizes when both are known, else it takes the child's
/// natural height, and is at most 240 high; in width, the child decides.
pub fn image_measure(width: i32, height: i32, orientation: Orientation, for_size: i32, child: Option<(i32, i32, i32, i32)>) -> (r: (i32, i32, i32, i32))
    requires
        orientation == Orientation::Vertical && height > 0 && width > 0 ==> scalable(
            min_int(for_size as int, MAX_VIDEO_WIDTH as int),
            height as int,
            width as int,
        ),
    ensures
        r == match child {
            None => (0i32, 0i32, -1i32, -1i32),
            Some(c) => if orientation == Orientation::Vertical {
                let natural = if height > 0 && width > 0 {
                    scaled(min_int(for_size as int, MAX_VIDEO_WIDTH as int), height as int, width as int)
                } else {
                    c.1 as int
                };
                (0i32, min_int(natural, MAX_VIDEO_HEIGHT as int) as i32, -1i32, -1i32)
            } else {
                c
            },
        },
{
    match child {
        None => (0, 0, -1, -1),
        Some(c) => {
            if orientation == Orientation::Vertical {
                let limited = min_i32(for_size, MAX_VIDEO_WIDTH);
                let natural = if height > 0 && width > 0 {
                    scale(limited, height, width)
                } else {
                    c.1
                };
                (0, min_i32(natural, MAX_VIDEO_HEIGHT), -1, -1)
            } else {
                c
            }
        },
    }
}

} // verus!
