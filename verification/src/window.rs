//! What the accessibility attributes of an element make of it.

use vstd::prelude::*;
use crate::ipc::RectInfo;
use crate::placement::WindowKind;
use crate::state::{Window, WindowView};
use crate::text::{opt_str, opt_text, same_text};

verus! {

/// The attributes of an element, as far as they can be read.
#[derive(Debug, PartialEq, Eq)]
pub struct Attributes {
    pub role: Option<String>,
    pub subrole: Option<String>,
    pub has_close_button: bool,
    pub has_fullscreen_button: bool,
    pub has_zoom_button: bool,
    pub has_minimize_button: bool,
    /// Whether the application has an icon in the Dock.
    pub is_regular_app: bool,
    pub window_id: Option<u32>,
    pub title: Option<String>,
    pub frame: Option<RectInfo>,
    pub minimized: Option<bool>,
    pub fullscreen: Option<bool>,
}

/// A window, as its attributes tell it.
#[derive(Debug, PartialEq, Eq)]
pub struct AxWindow {
    id: u32,
    window: Window,
    kind: WindowKind,
    minimized: bool,
}

/// What an `AxWindow` holds.
#[verifier::ext_equal]
pub struct AxWindowView {
    pub id: u32,
    pub window: WindowView,
    pub kind: WindowKind,
    pub minimized: bool,
}

impl View for AxWindow {
    type V = AxWindowView;

    closed spec fn view(&self) -> AxWindowView {
        AxWindowView { id: self.id, window: self.window@, kind: self.kind, minimized: self.minimized }
    }
}

/// The kind of a window. Without a close button, a window of an application
/// that is not regular is transient whatever it calls itself. A standard window
/// that can be zoomed but not fill the screen is a dialog.
pub open spec fn kind_of(
    subrole: Option<Seq<char>>,
    has_any_chrome_button: bool,
    has_close_button: bool,
    is_regular_app: bool,
    has_zoom_button: bool,
    has_fullscreen_button: bool,
) -> WindowKind {
    if !is_regular_app && !has_close_button {
        WindowKind::Popup
    } else {
        match subrole {
            Some(s) => if s == "AXDialog"@ || s == "AXSystemDialog"@ {
                WindowKind::Dialog
            } else if s == "AXStandardWindow"@ {
                if has_zoom_button && !has_fullscreen_button {
                    WindowKind::Dialog
                } else {
                    WindowKind::Standard
                }
            } else {
                WindowKind::Popup
            },
            None => if has_any_chrome_button {
                WindowKind::Standard
            } else {
                WindowKind::Popup
            },
        }
    }
}

/// Tells the kind of a window.
pub fn classify_window_kind(
    subrole: Option<&str>,
    has_any_chrome_button: bool,
    has_close_button: bool,
    is_regular_app: bool,
    has_zoom_button: bool,
    has_fullscreen_button: bool,
) -> (r: WindowKind)
    ensures
        r == kind_of(
            opt_str(subrole),
            has_any_chrome_button,
            has_close_button,
            is_regular_app,
            has_zoom_button,
            has_fullscreen_button,
        ),
{
    if !is_regular_app && !has_close_button {
        return WindowKind::Popup;
    }
    match subrole {
        Some(s) => {
            if same_text(s, "AXDialog") || same_text(s, "AXSystemDialog") {
                WindowKind::Dialog
            } else if same_text(s, "AXStandardWindow") {
                if has_zoom_button && !has_fullscreen_button {
                    WindowKind::Dialog
                } else {
                    WindowKind::Standard
                }
            } else {
                WindowKind::Popup
            }
        },
        None => {
            if has_any_chrome_button {
                WindowKind::Standard
            } else {
                WindowKind::Popup
            }
        },
    }
}

/// An element is a window: it has a window id, and no other role.
pub open spec fn is_window(a: Attributes) -> bool {
    a.window_id is Some && (a.role is Some ==> a.role->0@ == "AXWindow"@)
}

/// What can be told of a window. What cannot be read is empty, zero or false.
pub open spec fn made_of(a: Attributes, pid: i32, bundle_id: Option<Seq<char>>) -> AxWindowView {
    AxWindowView {
        id: a.window_id->0,
        window: WindowView {
            pid,
            bundle_id,
            title: match a.title {
                Some(t) => t@,
                None => Seq::empty(),
            },
            fullscreen: a.fullscreen == Some(true),
            frame: match a.frame {
                Some(r) => r,
                None => RectInfo { x: 0, y: 0, width: 0, height: 0 },
            },
        },
        kind: kind_of(
            opt_text(a.subrole),
            a.has_fullscreen_button || a.has_close_button || a.has_zoom_button
                || a.has_minimize_button,
            a.has_close_button,
            a.is_regular_app,
            a.has_zoom_button,
            a.has_fullscreen_button,
        ),
        minimized: a.minimized == Some(true),
    }
}

impl AxWindow {
    /// Makes a window of an element's attributes, `None` where it is none.
    pub fn from_element(attributes: Attributes, pid: i32, bundle_id: Option<String>) -> (r: Option<
        Self,
    >)
        ensures
            match r {
                Some(w) => is_window(attributes) && w@ == made_of(attributes, pid, opt_text(bundle_id)),
                None => !is_window(attributes),
            },
    {
        match &attributes.role {
            Some(role) => {
                if !same_text(role.as_str(), "AXWindow") {
                    return None;
                }
            },
            None => {},
        }
        let id: u32 = match attributes.window_id {
            Some(id) => id,
            None => {
                return None;
            },
        };
        let subrole: Option<&str> = match &attributes.subrole {
            Some(s) => Some(s.as_str()),
            None => None,
        };
        let kind: WindowKind = classify_window_kind(
            subrole,
            attributes.has_fullscreen_button || attributes.has_close_button
                || attributes.has_zoom_button || attributes.has_minimize_button,
            attributes.has_close_button,
            attributes.is_regular_app,
            attributes.has_zoom_button,
            attributes.has_fullscreen_button,
        );
        let title: String = match attributes.title {
            Some(t) => t,
            None => String::new(),
        };
        let frame: RectInfo = match attributes.frame {
            Some(r) => r,
            None => RectInfo { x: 0, y: 0, width: 0, height: 0 },
        };
        let minimized: bool = match attributes.minimized {
            Some(b) => b,
            None => false,
        };
        let fullscreen: bool = match attributes.fullscreen {
            Some(b) => b,
            None => false,
        };
        Some(
            AxWindow {
                id,
                window: Window { pid, bundle_id, title, fullscreen, frame },
                kind,
                minimized,
            },
        )
    }

    pub fn id(&self) -> (r: u32)
        ensures
            r == self@.id,
    {
        self.id
    }

    pub fn pid(&self) -> (r: i32)
        ensures
            r == self@.window.pid,
    {
        self.window.pid
    }

    pub fn bundle_id(&self) -> (r: Option<&str>)
        ensures
            opt_str(r) == self@.window.bundle_id,
    {
        match &self.window.bundle_id {
            Some(b) => Some(b.as_str()),
            None => None,
        }
    }

    pub fn title(&self) -> (r: &str)
        ensures
            r@ == self@.window.title,
    {
        self.window.title.as_str()
    }

    pub fn frame(&self) -> (r: RectInfo)
        ensures
            r == self@.window.frame,
    {
        self.window.frame
    }

    /// Takes note of where the window really is.
    pub fn sync_frame(&mut self, frame: RectInfo)
        ensures
            final(self)@ == (AxWindowView {
                window: WindowView { frame, ..old(self)@.window },
                ..old(self)@
            }),
    {
        self.window.frame = frame;
    }

    pub fn kind(&self) -> (r: WindowKind)
        ensures
            r == self@.kind,
    {
        self.kind
    }

    pub fn minimized(&self) -> (r: bool)
        ensures
            r == self@.minimized,
    {
        self.minimized
    }

    pub fn fullscreen(&self) -> (r: bool)
        ensures
            r == self@.window.fullscreen,
    {
        self.window.fullscreen
    }

    /// Gives up the window itself.
    pub fn into_window(self) -> (r: Window)
        ensures
            r@ == self@.window,
    {
        self.window
    }
}

/// A window of an application that is not regular, without a close button, is
/// left alone whatever else it has.
pub proof fn law_chrome_of_helpers_is_popup(
    subrole: Option<Seq<char>>,
    chrome: bool,
    zoom: bool,
    fullscreen: bool,
)
    ensures
        kind_of(subrole, chrome, false, false, zoom, fullscreen) == WindowKind::Popup,
{
}

/// A window of a regular application, or with a close button, is a dialog if it
/// says so, or if it is a standard one that can be zoomed but cannot fill the
/// screen; a standard one otherwise is standard; what it calls itself else makes
/// it a popup. One that does not call itself anything is standard exactly if it
/// has a button.
pub proof fn law_windows_are_what_they_call_themselves(
    subrole: Seq<char>,
    any: bool,
    close: bool,
    regular: bool,
    zoom: bool,
    fullscreen: bool,
)
    requires
        regular || close,
    ensures
        kind_of(Some("AXDialog"@), any, close, regular, zoom, fullscreen) is Dialog,
        kind_of(Some("AXSystemDialog"@), any, close, regular, zoom, fullscreen) is Dialog,
        kind_of(Some("AXStandardWindow"@), any, close, regular, true, false) is Dialog,
        kind_of(Some("AXStandardWindow"@), any, close, regular, zoom, true) is Standard,
        kind_of(Some("AXStandardWindow"@), any, close, regular, false, fullscreen) is Standard,
        subrole != "AXDialog"@ && subrole != "AXSystemDialog"@ && subrole != "AXStandardWindow"@
            ==> kind_of(Some(subrole), any, close, regular, zoom, fullscreen) is Popup,
        kind_of(None, true, close, regular, zoom, fullscreen) is Standard,
        kind_of(None, false, close, regular, zoom, fullscreen) is Popup,
{
    reveal_strlit("AXDialog");
    reveal_strlit("AXSystemDialog");
    reveal_strlit("AXStandardWindow");
    assert("AXDialog"@.len() == 8 && "AXSystemDialog"@.len() == 14);
    assert("AXStandardWindow"@.len() == 16);
}

/// A window is known by what can be read of it, each by itself; any of its four
/// buttons counts as one.
pub proof fn law_windows_are_read_as_they_are(a: Attributes, pid: i32, bundle_id: Option<Seq<char>>)
    requires
        a.window_id is Some,
    ensures
        ({
            let w = made_of(a, pid, bundle_id);
            let any = a.has_close_button || a.has_fullscreen_button || a.has_zoom_button
                || a.has_minimize_button;
            &&& w.id == a.window_id->0
            &&& w.window.pid == pid && w.window.bundle_id == bundle_id
            &&& a.title is Some ==> w.window.title == a.title->0@
            &&& a.title is None ==> w.window.title.len() == 0
            &&& a.frame is Some ==> w.window.frame == a.frame->0
            &&& a.minimized is Some ==> w.minimized == a.minimized->0
            &&& a.fullscreen is Some ==> w.window.fullscreen == a.fullscreen->0
            &&& a.minimized is None ==> !w.minimized
            &&& a.fullscreen is None ==> !w.window.fullscreen
            &&& w.kind == kind_of(
                opt_text(a.subrole),
                any,
                a.has_close_button,
                a.is_regular_app,
                a.has_zoom_button,
                a.has_fullscreen_button,
            )
        }),
        is_window(a) <==> a.role is None || a.role->0@ == "AXWindow"@,
{
}

}
