use vstd::prelude::*;

verus! {

/// The state of an identity verification.
#[derive(Clone, Copy, Debug, PartialEq, Eq, Structural)]
pub enum VerificationState {
    Requested,
    RequestSend,
    QrV1Show,
    QrV1Scan,
    SasV1,
    Completed,
    Cancelled,
    Dismissed,
    Error,
    Passive,
}

/// Whom an identity verification is with.
#[derive(Clone, Copy, Debug, PartialEq, Eq, Structural)]
pub enum VerificationMode {
    CurrentSession,
    OtherSession,
    User,
}

/// The short authentication string to compare: emoji, or three numbers.
#[derive(Clone, Debug)]
pub enum SasData {
    /// The emoji, each by its symbol and description.
    Emoji(Vec<(String, String)>),
    Decimal(u16, u16, u16),
}

/// The page of the verification widget.
#[derive(Clone, Copy, Debug, PartialEq, Eq, Structural)]
pub enum VerificationPage {
    AcceptRequest,
    WaitForOtherParty,
    QrCode,
    Emoji,
    Completed,
    /// The camera shows what it sees, to scan a QR code.
    ScanQrCode,
    /// "No camera" was found to scan a QR code with.
    NoCamera,
    /// A QR code was scanned.
    QrCodeScanned,
}

/// The buttons of the verification widget.
#[derive(Clone, Copy, Debug, PartialEq, Eq, Structural)]
pub enum VerificationButton {
    Accept,
    Decline,
    EmojiMatch,
    EmojiNotMatch,
    /// "Compare emoji" on the page that offers a QR code scan.
    StartEmoji,
    /// "Compare emoji" on the page without a camera.
    StartEmoji2,
    /// "Compare emoji" on the page that shows a QR code.
    StartEmoji3,
    ScanQrCode,
    /// "Take a screenshot" on the page without a camera.
    TakeScreenshot2,
    /// "Take a screenshot" on the page that shows a QR code.
    TakeScreenshot3,
}

/// Whether a button shows a spinner, and whether it can be clicked.
#[derive(Clone, Copy, Debug, PartialEq, Eq, Structural)]
pub struct ButtonState {
    pub loading: bool,
    pub sensitive: bool,
}

/// What a click on a button of the verification widget asks for.
#[derive(Clone, Copy, Debug, PartialEq, Eq, Structural)]
pub enum ButtonAction {
    /// Accept the request.
    Accept,
    /// Cancel the request.
    Decline,
    /// Tell the other side that the emoji match.
    EmojiMatch,
    /// Tell the other side that the emoji do not match.
    EmojiNotMatch,
    /// Switch to comparing emoji.
    StartSas,
    /// Start the camera to scan a QR code.
    StartScanning,
    /// Look for a QR code in a screenshot.
    TakeScreenshot,
    /// Nothing: there is no request to act on.
    Nothing,
}

/// Where a button's state is kept.
pub open spec fn button_index(b: VerificationButton) -> int {
    match b {
        VerificationButton::Accept => 0,
        VerificationButton::Decline => 1,
        VerificationButton::EmojiMatch => 2,
        VerificationButton::EmojiNotMatch => 3,
        VerificationButton::StartEmoji => 4,
        VerificationButton::StartEmoji2 => 5,
        VerificationButton::StartEmoji3 => 6,
        VerificationButton::ScanQrCode => 7,
        VerificationButton::TakeScreenshot2 => 8,
        VerificationButton::TakeScreenshot3 => 9,
    }
}

/// The button that a click on `b` makes insensitive: the other choice of
/// the same page.
pub open spec fn partner(b: VerificationButton) -> VerificationButton {
    match b {
        VerificationButton::Accept => VerificationButton::Decline,
        VerificationButton::Decline => VerificationButton::Accept,
        VerificationButton::EmojiMatch => VerificationButton::EmojiNotMatch,
        VerificationButton::EmojiNotMatch => VerificationButton::EmojiMatch,
        VerificationButton::StartEmoji => VerificationButton::ScanQrCode,
        VerificationButton::StartEmoji2 => VerificationButton::TakeScreenshot2,
        VerificationButton::StartEmoji3 => VerificationButton::TakeScreenshot3,
        VerificationButton::ScanQrCode => VerificationButton::StartEmoji,
        VerificationButton::TakeScreenshot2 => VerificationButton::StartEmoji2,
        VerificationButton::TakeScreenshot3 => VerificationButton::StartEmoji3,
    }
}

/// What a click on `b` asks for; `has_camera` tells whether a camera can
/// scan QR codes, `has_request` whether the widget has a request.
pub open spec fn click_action(b: VerificationButton, has_camera: bool, has_request: bool) -> ButtonAction {
    match b {
        VerificationButton::ScanQrCode => if has_camera {
            ButtonAction::StartScanning
        } else {
            ButtonAction::TakeScreenshot
        },
        VerificationButton::TakeScreenshot2 | VerificationButton::TakeScreenshot3 => ButtonAction::TakeScreenshot,
        _ => if !has_request {
            ButtonAction::Nothing
        } else {
            match b {
                VerificationButton::Accept => ButtonAction::Accept,
                VerificationButton::Decline => ButtonAction::Decline,
                VerificationButton::EmojiMatch => ButtonAction::EmojiMatch,
                VerificationButton::EmojiNotMatch => ButtonAction::EmojiNotMatch,
                _ => ButtonAction::StartSas,
            }
        },
    }
}

/// A button that is neither loading nor insensitive.
pub open spec fn idle() -> ButtonState {
    ButtonState { loading: false, sensitive: true }
}

/// The buttons after a click on `b`: a click on Decline changes none;
/// another shows a spinner on `b` and makes the other choice of its page
/// insensitive.
pub open spec fn clicked(buttons: Seq<ButtonState>, b: VerificationButton) -> Seq<ButtonState> {
    if b == VerificationButton::Decline {
        buttons
    } else {
        let i = button_index(b);
        let j = button_index(partner(b));
        buttons.update(i, ButtonState { loading: true, sensitive: buttons[i].sensitive }).update(
            j,
            ButtonState { loading: buttons[j].loading, sensitive: false },
        )
    }
}

fn index_of_button(b: VerificationButton) -> (i: usize)
    ensures
        i == button_index(b),
{
    match b {
        VerificationButton::Accept => 0,
        VerificationButton::Decline => 1,
        VerificationButton::EmojiMatch => 2,
        VerificationButton::EmojiNotMatch => 3,
        VerificationButton::StartEmoji => 4,
        VerificationButton::StartEmoji2 => 5,
        VerificationButton::StartEmoji3 => 6,
        VerificationButton::ScanQrCode => 7,
        VerificationButton::TakeScreenshot2 => 8,
        VerificationButton::TakeScreenshot3 => 9,
    }
}

fn partner_of(b: VerificationButton) -> (p: VerificationButton)
    ensures
        p == partner(b),
{
    match b {
        VerificationButton::Accept => VerificationButton::Decline,
        VerificationButton::Decline => VerificationButton::Accept,
        VerificationButton::EmojiMatch => VerificationButton::EmojiNotMatch,
        VerificationButton::EmojiNotMatch => VerificationButton::EmojiMatch,
        VerificationButton::StartEmoji => VerificationButton::ScanQrCode,
        VerificationButton::StartEmoji2 => VerificationButton::TakeScreenshot2,
        VerificationButton::StartEmoji3 => VerificationButton::TakeScreenshot3,
        VerificationButton::ScanQrCode => VerificationButton::StartEmoji,
        VerificationButton::TakeScreenshot2 => VerificationButton::StartEmoji2,
        VerificationButton::TakeScreenshot3 => VerificationButton::StartEmoji3,
    }
}

/// The label of the QR code button: scanning with the camera where there is
/// one, else a screenshot.
pub fn scan_button_label(has_camera: bool) -> (l: &'static str)
    ensures
        l == if has_camera { "Scan QR code with this session" } else { "Take a Screenshot of a Qr Code" },
{
    if has_camera {
        "Scan QR code with this session"
    } else {
        "Take a Screenshot of a Qr Code"
    }
}

/// How the emoji rows show a short authentication string: emoji go four to
/// the first row and the others to the second; numbers go together in the
/// first row.
pub enum SasRows {
    Emoji { first: Vec<(String, String)>, second: Vec<(String, String)> },
    Decimal(u16, u16, u16),
}

/// What the verification widget does when the request's state changes.
pub enum VerificationAction {
    /// Show a page.
    Show(VerificationPage),
    /// Show the QR code page with the code the request has.
    ShowQrCode,
    /// Fall back to comparing emoji: the request has no QR code to show.
    StartSas,
    /// Start the camera to scan the other side's QR code.
    StartScanning,
    /// Show the emoji page with these rows.
    ShowSas(SasRows),
    /// Leave the view as it is.
    Nothing,
}

/// The rows of the emoji page for `sas`.
pub open spec fn sas_rows_view(sas: SasData) -> (Seq<(String, String)>, Seq<(String, String)>) {
    match sas {
        SasData::Emoji(e) => if e@.len() <= 4 {
            (e@, seq![])
        } else {
            (e@.take(4), e@.skip(4))
        },
        SasData::Decimal(..) => (seq![], seq![]),
    }
}

/// What the widget does in state `state`; `has_qr_code` tells whether the
/// request has a QR code to show.
pub open spec fn verification_action(state: VerificationState, has_qr_code: bool) -> VerificationAction {
    match state {
        VerificationState::Requested => VerificationAction::Show(VerificationPage::AcceptRequest),
        VerificationState::RequestSend => VerificationAction::Show(VerificationPage::WaitForOtherParty),
        VerificationState::QrV1Show => if has_qr_code {
            VerificationAction::ShowQrCode
        } else {
            VerificationAction::StartSas
        },
        VerificationState::QrV1Scan => VerificationAction::StartScanning,
        VerificationState::Completed => VerificationAction::Show(VerificationPage::Completed),
        _ => VerificationAction::Nothing,
    }
}

/// Whether `r` shows `sas`: emoji four to the first row and the others to
/// the second, in order; numbers as they are.
pub open spec fn shows_sas(sas: SasData, r: SasRows) -> bool {
    match sas {
        SasData::Emoji(e) => r matches SasRows::Emoji { first, second }
            && first@ == sas_rows_view(sas).0 && second@ == sas_rows_view(sas).1
            && first@ + second@ == e@,
        SasData::Decimal(a, b, c) => r matches SasRows::Decimal(x, y, z) && x == a && y == b && z == c,
    }
}

/// Splits the short authentication string into the emoji rows.
pub fn sas_rows(sas: SasData) -> (r: SasRows)
    ensures
        shows_sas(sas, r),
{
    match sas {
        SasData::Emoji(e) => {
            let ghost all = e@;
            let mut first: Vec<(String, String)> = Vec::new();
            let mut second: Vec<(String, String)> = Vec::new();
            let n = e.len();
            let mut rest = e;
            let mut taken: usize = 0;
            while rest.len() > 0
                invariant
                    all.len() == n,
                    taken <= all.len(),
                    first@ + second@ == all.take(taken as int),
                    taken <= 4 ==> first@ == all.take(taken as int) && second@.len() == 0,
                    taken > 4 ==> first@ == all.take(4) && second@ == all.subrange(4, taken as int),
                    rest@ == all.skip(taken as int),
                decreases rest@.len(),
            {
                let item = rest.remove(0);
                assert(item == all[taken as int]);
                if taken < 4 {
                    first.push(item);
                } else {
                    second.push(item);
                }
                taken = taken + 1;
                assert(rest@ =~= all.skip(taken as int));
                assert(first@ + second@ =~= all.take(taken as int));
                if taken <= 4 {
                    assert(first@ =~= all.take(taken as int));
                } else {
                    assert(second@ =~= all.subrange(4, taken as int));
                }
            }
            assert(all.take(taken as int) =~= all);
            if taken > 4 {
                assert(all.subrange(4, taken as int) =~= all.skip(4));
                assert(second@ =~= all.skip(4));
            } else {
                assert(second@ =~= Seq::<(String, String)>::empty());
                assert(first@ =~= all);
            }
            SasRows::Emoji { first, second }
        },
        SasData::Decimal(a, b, c) => SasRows::Decimal(a, b, c),
    }
}

/// A widget that walks through an identity verification.
pub struct IdentityVerificationWidget {
    /// The page shown, once one was.
    page: Option<VerificationPage>,
    /// The request, by its id and mode.
    request: Option<(u64, VerificationMode)>,
    /// The state of each button, at its `button_index`.
    buttons: Vec<ButtonState>,
}

impl IdentityVerificationWidget {
    pub closed spec fn page_view(&self) -> Option<VerificationPage> {
        self.page
    }

    pub closed spec fn request_view(&self) -> Option<(u64, VerificationMode)> {
        self.request
    }

    pub closed spec fn buttons_view(&self) -> Seq<ButtonState> {
        self.buttons@
    }

    /// Every button has its state.
    pub open spec fn wf(&self) -> bool {
        self.buttons_view().len() == 10
    }

    /// The state of button `b`.
    pub open spec fn button_view(&self, b: VerificationButton) -> ButtonState {
        self.buttons_view()[button_index(b)]
    }

    /// All buttons are idle.
    pub open spec fn all_idle(&self) -> bool {
        forall|i: int| 0 <= i < 10 ==> #[trigger] self.buttons_view()[i] == idle()
    }

    pub fn new() -> (w: IdentityVerificationWidget)
        ensures
            w.page_view() is None,
            w.request_view() is None,
            w.wf(),
            w.all_idle(),
    {
        let mut buttons: Vec<ButtonState> = Vec::new();
        let mut i: usize = 0;
        while i < 10
            invariant
                i <= 10,
                buttons@.len() == i,
                forall|k: int| 0 <= k < i ==> #[trigger] buttons@[k] == idle(),
            decreases 10 - i,
        {
            buttons.push(ButtonState { loading: false, sensitive: true });
            i = i + 1;
        }
        IdentityVerificationWidget { page: None, request: None, buttons }
    }

    /// The request, by its id and mode.
    pub fn request(&self) -> (r: Option<(u64, VerificationMode)>)
        ensures
            r == self.request_view(),
    {
        self.request
    }

    /// The state of button `b`.
    pub fn button(&self, b: VerificationButton) -> (st: ButtonState)
        requires
            self.wf(),
        ensures
            st == self.button_view(b),
    {
        self.buttons[index_of_button(b)]
    }

    /// Makes every button idle again.
    pub fn reset(&mut self)
        requires
            old(self).wf(),
        ensures
            final(self).wf(),
            final(self).all_idle(),
            final(self).page_view() == old(self).page_view(),
            final(self).request_view() == old(self).request_view(),
    {
        let mut i: usize = 0;
        while i < 10
            invariant
                i <= 10,
                self.buttons@.len() == 10,
                forall|k: int| 0 <= k < i ==> #[trigger] self.buttons@[k] == idle(),
                self.page == old(self).page,
                self.request == old(self).request,
            decreases 10 - i,
        {
            self.buttons.set(i, ButtonState { loading: false, sensitive: true });
            i = i + 1;
        }
    }

    /// Sets the request, by its id and mode; a new request makes every
    /// button idle. Returns whether the request changed: the caller then
    /// sets the texts of the request's mode and updates the view.
    pub fn set_request(&mut self, request: Option<(u64, VerificationMode)>) -> (changed: bool)
        requires
            old(self).wf(),
        ensures
            final(self).wf(),
            changed == (request != old(self).request_view()),
            final(self).request_view() == request,
            final(self).page_view() == old(self).page_view(),
            changed ==> final(self).all_idle(),
            !changed ==> final(self).buttons_view() == old(self).buttons_view(),
    {
        let same = match (&self.request, &request) {
            (None, None) => true,
            (Some((a, m)), Some((b, n))) => *a == *b && *m == *n,
            _ => false,
        };
        if same {
            return false;
        }
        self.reset();
        self.request = request;
        true
    }

    /// A click on button `b`; `has_camera` tells whether a camera can scan
    /// QR codes. A click on Decline cancels the request and leaves the
    /// buttons as they are; another shows a spinner on `b` and makes the
    /// other choice of its page insensitive. Returns what the click asks for.
    pub fn click(&mut self, b: VerificationButton, has_camera: bool) -> (a: ButtonAction)
        requires
            old(self).wf(),
        ensures
            final(self).wf(),
            a == click_action(b, has_camera, old(self).request_view() is Some),
            final(self).buttons_view() == clicked(old(self).buttons_view(), b),
            final(self).page_view() == old(self).page_view(),
            final(self).request_view() == old(self).request_view(),
    {
        let has_request = self.request.is_some();
        if b != VerificationButton::Decline {
            let i = index_of_button(b);
            let j = index_of_button(partner_of(b));
            let bi = self.buttons[i];
            self.buttons.set(i, ButtonState { loading: true, sensitive: bi.sensitive });
            let bj = self.buttons[j];
            self.buttons.set(j, ButtonState { loading: bj.loading, sensitive: false });
        }
        match b {
            VerificationButton::ScanQrCode => {
                if has_camera {
                    ButtonAction::StartScanning
                } else {
                    ButtonAction::TakeScreenshot
                }
            },
            VerificationButton::TakeScreenshot2 | VerificationButton::TakeScreenshot3 => ButtonAction::TakeScreenshot,
            _ => {
                if !has_request {
                    ButtonAction::Nothing
                } else {
                    match b {
                        VerificationButton::Accept => ButtonAction::Accept,
                        VerificationButton::Decline => ButtonAction::Decline,
                        VerificationButton::EmojiMatch => ButtonAction::EmojiMatch,
                        VerificationButton::EmojiNotMatch => ButtonAction::EmojiNotMatch,
                        _ => ButtonAction::StartSas,
                    }
                }
            },
        }
    }

    /// Whether the closing button shows the session's content: it does at
    /// the end of a verification of this session.
    pub fn done_shows_content(&self) -> (b: bool)
        ensures
            b == (self.request_view() matches Some((_, m)) && m == VerificationMode::CurrentSession),
    {
        match self.request {
            Some((_, VerificationMode::CurrentSession)) => true,
            _ => false,
        }
    }

    /// The camera was asked to scan: its page shows where it started, and
    /// "no camera" where it did not.
    pub fn scanning_started(&mut self, started: bool)
        ensures
            final(self).page_view() == Some(if started { VerificationPage::ScanQrCode } else { VerificationPage::NoCamera }),
            final(self).request_view() == old(self).request_view(),
            final(self).buttons_view() == old(self).buttons_view(),
    {
        self.page = Some(if started { VerificationPage::ScanQrCode } else { VerificationPage::NoCamera });
    }

    /// A QR code was scanned: the scanned page shows. Returns whether there
    /// is a request to hand the code to.
    pub fn finish_scanning(&mut self) -> (deliver: bool)
        ensures
            deliver == (old(self).request_view() is Some),
            final(self).page_view() == Some(VerificationPage::QrCodeScanned),
            final(self).request_view() == old(self).request_view(),
            final(self).buttons_view() == old(self).buttons_view(),
    {
        self.page = Some(VerificationPage::QrCodeScanned);
        self.request.is_some()
    }

    /// A screenshot was searched for a QR code: a code found finishes the
    /// scan, and none makes every button idle again. Returns whether there
    /// is a code and a request to hand it to.
    pub fn screenshot_taken(&mut self, found: bool) -> (deliver: bool)
        requires
            old(self).wf(),
        ensures
            final(self).wf(),
            deliver == (found && old(self).request_view() is Some),
            final(self).request_view() == old(self).request_view(),
            found ==> final(self).page_view() == Some(VerificationPage::QrCodeScanned)
                && final(self).buttons_view() == old(self).buttons_view(),
            !found ==> final(self).page_view() == old(self).page_view() && final(self).all_idle(),
    {
        if found {
            self.finish_scanning()
        } else {
            self.reset();
            false
        }
    }

    /// The page shown.
    pub fn page(&self) -> (p: Option<VerificationPage>)
        ensures
            p == self.page_view(),
    {
        self.page
    }

    /// Updates the view to the request's state `state`; `has_qr_code` tells
    /// whether the request has a QR code to show, and `sas` is the short
    /// authentication string it has, which a request in the emoji state has.
    /// Returns what else the view has to do.
    pub fn update_view(&mut self, state: VerificationState, has_qr_code: bool, sas: Option<SasData>) -> (a: VerificationAction)
        requires
            state == VerificationState::SasV1 ==> sas is Some,
        ensures
            state != VerificationState::SasV1 ==> a == verification_action(state, has_qr_code),
            state == VerificationState::SasV1 ==> (a matches VerificationAction::ShowSas(r) && shows_sas(sas->0, r)),
            state == VerificationState::Requested ==> a == VerificationAction::Show(VerificationPage::AcceptRequest)
                && final(self).page_view() == Some(VerificationPage::AcceptRequest),
            state == VerificationState::RequestSend ==> a == VerificationAction::Show(VerificationPage::WaitForOtherParty)
                && final(self).page_view() == Some(VerificationPage::WaitForOtherParty),
            state == VerificationState::Completed ==> a == VerificationAction::Show(VerificationPage::Completed)
                && final(self).page_view() == Some(VerificationPage::Completed),
            final(self).page_view() == match a {
                VerificationAction::Show(p) => Some(p),
                VerificationAction::ShowQrCode => Some(VerificationPage::QrCode),
                VerificationAction::ShowSas(_) => Some(VerificationPage::Emoji),
                _ => old(self).page_view(),
            },
            final(self).request_view() == old(self).request_view(),
            final(self).buttons_view() == old(self).buttons_view(),
    {
        let action = match state {
            VerificationState::Requested => VerificationAction::Show(VerificationPage::AcceptRequest),
            VerificationState::RequestSend => VerificationAction::Show(VerificationPage::WaitForOtherParty),
            VerificationState::QrV1Show => {
                if has_qr_code {
                    VerificationAction::ShowQrCode
                } else {
                    VerificationAction::StartSas
                }
            },
            VerificationState::QrV1Scan => VerificationAction::StartScanning,
            VerificationState::SasV1 => {
                match sas {
                    Some(data) => VerificationAction::ShowSas(sas_rows(data)),
                    None => VerificationAction::Nothing,
                }
            },
            VerificationState::Completed => VerificationAction::Show(VerificationPage::Completed),
            _ => VerificationAction::Nothing,
        };
        match &action {
            VerificationAction::Show(p) => {
                self.page = Some(*p);
            },
            VerificationAction::ShowQrCode => {
                self.page = Some(VerificationPage::QrCode);
            },
            VerificationAction::ShowSas(_) => {
                self.page = Some(VerificationPage::Emoji);
            },
            _ => {},
        }
        action
    }
}

/// What the verification bar above a room's history says.
#[derive(Clone, Copy, Debug, PartialEq, Eq, Structural)]
pub enum InfoBarView {
    /// Hidden: no request, or a finished one.
    Hidden,
    /// "<b>{name}</b> wants to be verified", with "Verify" and "Decline".
    Requested,
    /// "Verification in progress", with "Continue" and "Cancel".
    InProgress,
}

/// What the bar shows for a request in state `state`, finished or not.
pub open spec fn info_bar_view(request: Option<(VerificationState, bool)>) -> InfoBarView {
    match request {
        None => InfoBarView::Hidden,
        Some((state, finished)) => if finished {
            InfoBarView::Hidden
        } else if state == VerificationState::Requested {
            InfoBarView::Requested
        } else {
            InfoBarView::InProgress
        },
    }
}

/// A bar that shows an identity verification request of a room.
pub struct VerificationInfoBar {
    /// The request's state and whether it is finished, if there is one.
    request: Option<(VerificationState, bool)>,
    /// What is shown.
    view: InfoBarView,
}

impl VerificationInfoBar {
    pub closed spec fn request_view(&self) -> Option<(VerificationState, bool)> {
        self.request
    }

    pub closed spec fn shown(&self) -> InfoBarView {
        self.view
    }

    pub fn new() -> (b: VerificationInfoBar)
        ensures
            b.request_view() is None,
            b.shown() == InfoBarView::Hidden,
    {
        VerificationInfoBar { request: None, view: InfoBarView::Hidden }
    }

    /// The request's state and whether it is finished, if there is a request.
    pub fn request(&self) -> (r: Option<(VerificationState, bool)>)
        ensures
            r == self.request_view(),
    {
        self.request
    }

    /// What is shown.
    pub fn view(&self) -> (v: InfoBarView)
        ensures
            v == self.shown(),
    {
        self.view
    }

    /// Sets the request, by its state and whether it is finished, and updates
    /// the view.
    pub fn set_request(&mut self, request: Option<(VerificationState, bool)>)
        ensures
            final(self).request_view() == request,
            final(self).shown() == info_bar_view(request),
    {
        self.request = request;
        self.update_view();
    }

    /// Shows what the request calls for.
    pub fn update_view(&mut self)
        ensures
            final(self).request_view() == old(self).request_view(),
            final(self).shown() == info_bar_view(old(self).request_view()),
    {
        self.view = match self.request {
            None => InfoBarView::Hidden,
            Some((state, finished)) => {
                if finished {
                    InfoBarView::Hidden
                } else if state == VerificationState::Requested {
                    InfoBarView::Requested
                } else {
                    InfoBarView::InProgress
                }
            },
        };
    }
}

/// A label of the verification widget: its number, the untranslated
/// text, and whether the name of the user to verify goes into the text in
/// place of its `{}`.
pub type ModeLabel = (u8, &'static str, bool);

/// The texts of the verification widget for a mode: whether they are
/// markup, the labels, and the label of the button that closes the widget.
pub struct ModeTexts {
    pub markup: bool,
    pub labels: Vec<ModeLabel>,
    pub done_button: Option<&'static str>,
}

/// The labels of the verification widget in each mode; a verification of
/// this session leaves the first label and the last two as they are.
pub open spec fn mode_labels(mode: VerificationMode) -> Seq<ModeLabel> {
    match mode {
        VerificationMode::CurrentSession => seq![
        (2u8, "Verify the new session with the current session.", false),
        (3u8, "Verify Session", false),
        (4u8, "Scan the Qr code with this session from another session logged into this account.", false),
        (5u8, "You scanned to qr code successfully. You may need to confirm the verification in the other session.", false),
        (6u8, "Verify Session", false),
        (7u8, "Select an option to verify the new session.", false),
        (8u8, "Verify Session", false),
        (9u8, "Scan this qr code with the newly logged in session.", false),
        (10u8, "Verify Session", false),
        (11u8, "Check if the same emoji appear in the same order on the other device.", false),
        (12u8, "Request Complete", false),
        (13u8, "This session is ready to send and receive secure messages.", false),
        ],
        VerificationMode::OtherSession => seq![
        (1u8, "Login Request From Another Session", false),
        (2u8, "Verify the new session with the current session.", false),
        (3u8, "Verify Session", false),
        (4u8, "Scan the Qr code with this session from another session logged into this account.", false),
        (5u8, "You scanned to qr code successfully. You may need to confirm the verification in the other session.", false),
        (6u8, "Verify Session", false),
        (7u8, "Select an option to verify the new session.", false),
        (8u8, "Verify Session", false),
        (9u8, "Scan this qr code with the newly logged in session.", false),
        (10u8, "Verify Session", false),
        (11u8, "Check if the same emoji appear in the same order on the other device.", false),
        (12u8, "Request Complete", false),
        (13u8, "The new session is now ready to send and receive secure messages.", false),
        (14u8, "Get Another Device", false),
        (15u8, "Accept the verification request from another session or device.", false),
        ],
        VerificationMode::User => seq![
        (1u8, "Verification Request", false),
        (2u8, "<b>{}</b> asked do be verified. Verifying an user increases the security of the conversation.", true),
        (3u8, "Verification Request", false),
        (4u8, "Scan the Qr code shown on the device of <b>{}</b>.", true),
        (5u8, "You scanned the Qr code successfully. <b>{}</b> may need to confirm the verification.", true),
        (6u8, "Verification Request", false),
        (7u8, "Select an option to verify <b>{}</b>", true),
        (8u8, "Verification Request", false),
        (9u8, "Ask <b>{}</b> to scan this Qr code with there device.", false),
        (10u8, "Verification Request", false),
        (11u8, "Ask <b>{}</b> if they see the following emoji appear in the same order on there screen.", true),
        (12u8, "Verification Complete", false),
        (13u8, "<b>{}</b> is verified and you can now be sure that your communication will be private.", true),
        (14u8, "Waiting for {}", true),
        (15u8, "Ask <b>{}</b> to accept the verification request.", true),
        ],
    }
}

impl IdentityVerificationWidget {
    /// The texts of the widget for a verification in `mode`: those of a
    /// verification of another user are markup, with the user's name in
    /// them; only a verification of this session names the closing button,
    /// "Get Started".
    pub fn init_mode(mode: VerificationMode) -> (t: ModeTexts)
        ensures
            t.markup == (mode == VerificationMode::User),
            t.labels@ == mode_labels(mode),
            t.done_button == if mode == VerificationMode::CurrentSession {
                Some("Get Started")
            } else {
                None::<&'static str>
            },
    {
        match mode {
            VerificationMode::CurrentSession => {
                let labels: Vec<ModeLabel> = vec![
        (2u8, "Verify the new session with the current session.", false),
        (3u8, "Verify Session", false),
        (4u8, "Scan the Qr code with this session from another session logged into this account.", false),
        (5u8, "You scanned to qr code successfully. You may need to confirm the verification in the other session.", false),
        (6u8, "Verify Session", false),
        (7u8, "Select an option to verify the new session.", false),
        (8u8, "Verify Session", false),
        (9u8, "Scan this qr code with the newly logged in session.", false),
        (10u8, "Verify Session", false),
        (11u8, "Check if the same emoji appear in the same order on the other device.", false),
        (12u8, "Request Complete", false),
        (13u8, "This session is ready to send and receive secure messages.", false),
                ];
                assert(labels@ =~= mode_labels(mode));
                ModeTexts { markup: false, labels, done_button: Some("Get Started") }
            },
            VerificationMode::OtherSession => {
                let labels: Vec<ModeLabel> = vec![
        (1u8, "Login Request From Another Session", false),
        (2u8, "Verify the new session with the current session.", false),
        (3u8, "Verify Session", false),
        (4u8, "Scan the Qr code with this session from another session logged into this account.", false),
        (5u8, "You scanned to qr code successfully. You may need to confirm the verification in the other session.", false),
        (6u8, "Verify Session", false),
        (7u8, "Select an option to verify the new session.", false),
        (8u8, "Verify Session", false),
        (9u8, "Scan this qr code with the newly logged in session.", false),
        (10u8, "Verify Session", false),
        (11u8, "Check if the same emoji appear in the same order on the other device.", false),
        (12u8, "Request Complete", false),
        (13u8, "The new session is now ready to send and receive secure messages.", false),
        (14u8, "Get Another Device", false),
        (15u8, "Accept the verification request from another session or device.", false),
                ];
                assert(labels@ =~= mode_labels(mode));
                ModeTexts { markup: false, labels, done_button: None }
            },
            VerificationMode::User => {
                let labels: Vec<ModeLabel> = vec![
        (1u8, "Verification Request", false),
        (2u8, "<b>{}</b> asked do be verified. Verifying an user increases the security of the conversation.", true),
        (3u8, "Verification Request", false),
        (4u8, "Scan the Qr code shown on the device of <b>{}</b>.", true),
        (5u8, "You scanned the Qr code successfully. <b>{}</b> may need to confirm the verification.", true),
        (6u8, "Verification Request", false),
        (7u8, "Select an option to verify <b>{}</b>", true),
        (8u8, "Verification Request", false),
        (9u8, "Ask <b>{}</b> to scan this Qr code with there device.", false),
        (10u8, "Verification Request", false),
        (11u8, "Ask <b>{}</b> if they see the following emoji appear in the same order on there screen.", true),
        (12u8, "Verification Complete", false),
        (13u8, "<b>{}</b> is verified and you can now be sure that your communication will be private.", true),
        (14u8, "Waiting for {}", true),
        (15u8, "Ask <b>{}</b> to accept the verification request.", true),
                ];
                assert(labels@ =~= mode_labels(mode));
                ModeTexts { markup: true, labels, done_button: None }
            },
        }
    }
}

/// What the verification widget does in each state of a request: a request
/// from the other side asks to be accepted; one this side sent waits for the
/// other side; a QR code is shown where the request has one, and emoji are
/// compared where it has none; the camera starts to scan the other side's
/// code; a completed verification says so; a cancelled, dismissed, failed
/// or passive one leaves the view as it is. Only the QR code state depends
/// on whether there is a code.
pub proof fn lemma_verification_pages(state: VerificationState, has_qr_code: bool)
    ensures
        verification_action(VerificationState::Requested, has_qr_code) == VerificationAction::Show(VerificationPage::AcceptRequest),
        verification_action(VerificationState::RequestSend, has_qr_code) == VerificationAction::Show(VerificationPage::WaitForOtherParty),
        verification_action(VerificationState::QrV1Show, true) == VerificationAction::ShowQrCode,
        verification_action(VerificationState::QrV1Show, false) == VerificationAction::StartSas,
        verification_action(VerificationState::QrV1Scan, has_qr_code) == VerificationAction::StartScanning,
        verification_action(VerificationState::Completed, has_qr_code) == VerificationAction::Show(VerificationPage::Completed),
        (state == VerificationState::Cancelled || state == VerificationState::Dismissed || state == VerificationState::Error
            || state == VerificationState::Passive) ==> verification_action(state, has_qr_code) == VerificationAction::Nothing,
        state != VerificationState::QrV1Show ==> verification_action(state, true) == verification_action(state, false),
        verification_action(VerificationState::RequestSend, has_qr_code) != verification_action(VerificationState::Requested, has_qr_code),
{
}

} // verus!
