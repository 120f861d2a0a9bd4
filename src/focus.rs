use vstd::prelude::*;

verus! {

/// A window as the compositor describes it.
#[derive(Debug, Clone)]
pub struct WindowInfo {
    pub id: u64,
    pub app_id: Option<String>,
    pub pid: Option<i32>,
    pub title: Option<String>,
}

pub struct WindowView {
    pub id: u64,
    pub app_id: Option<Seq<char>>,
    pub pid: Option<i32>,
    pub title: Option<Seq<char>>,
}

pub open spec fn text_view(s: Option<String>) -> Option<Seq<char>> {
    match s {
        Some(t) => Some(t@),
        None => None,
    }
}

impl View for WindowInfo {
    type V = WindowView;

    open spec fn view(&self) -> WindowView {
        WindowView {
            id: self.id,
            app_id: text_view(self.app_id),
            pid: self.pid,
            title: text_view(self.title),
        }
    }
}

fn copy_text(s: &Option<String>) -> (r: Option<String>)
    ensures
        text_view(r) == text_view(*s),
{
    match s {
        Some(t) => Some(t.as_str().to_owned()),
        None => None,
    }
}

impl WindowInfo {
    pub fn duplicate(&self) -> (r: WindowInfo)
        ensures
            r@ == self@,
    {
        WindowInfo {
            id: self.id,
            app_id: copy_text(&self.app_id),
            pid: self.pid,
            title: copy_text(&self.title),
        }
    }
}

/// A window event, as the zoomer consumes it.
#[derive(Debug, Clone)]
pub enum NiriEvent {
    Focus { window_id: u64, window: WindowInfo },
    Blur { window_id: u64, window: WindowInfo },
    Create { window_id: u64, window: WindowInfo },
    Destroy { window_id: u64 },
}

pub enum EventView {
    Focus { window_id: u64, window: WindowView },
    Blur { window_id: u64, window: WindowView },
    Create { window_id: u64, window: WindowView },
    Destroy { window_id: u64 },
}

impl View for NiriEvent {
    type V = EventView;

    open spec fn view(&self) -> EventView {
        match self {
            NiriEvent::Focus { window_id, window } => EventView::Focus { window_id: *window_id, window: window@ },
            NiriEvent::Blur { window_id, window } => EventView::Blur { window_id: *window_id, window: window@ },
            NiriEvent::Create { window_id, window } => EventView::Create { window_id: *window_id, window: window@ },
            NiriEvent::Destroy { window_id } => EventView::Destroy { window_id: *window_id },
        }
    }
}

impl NiriEvent {
    pub open spec fn window_spec(&self) -> Option<WindowInfo> {
        match self {
            NiriEvent::Focus { window, .. } => Some(*window),
            NiriEvent::Blur { window, .. } => Some(*window),
            NiriEvent::Create { window, .. } => Some(*window),
            NiriEvent::Destroy { .. } => None,
        }
    }

    pub fn window(&self) -> (r: Option<&WindowInfo>)
        ensures
            match r {
                Some(w) => self.window_spec() == Some(*w),
                None => self.window_spec() is None,
            },
    {
        match self {
            NiriEvent::Focus { window, .. } => Some(window),
            NiriEvent::Blur { window, .. } => Some(window),
            NiriEvent::Create { window, .. } => Some(window),
            NiriEvent::Destroy { .. } => None,
        }
    }

    pub fn window_id(&self) -> (r: Option<u64>)
        ensures
            r == Some(
                match self {
                    NiriEvent::Focus { window_id, .. } => *window_id,
                    NiriEvent::Blur { window_id, .. } => *window_id,
                    NiriEvent::Create { window_id, .. } => *window_id,
                    NiriEvent::Destroy { window_id } => *window_id,
                },
            ),
    {
        match self {
            NiriEvent::Focus { window_id, .. } => Some(*window_id),
            NiriEvent::Blur { window_id, .. } => Some(*window_id),
            NiriEvent::Create { window_id, .. } => Some(*window_id),
            NiriEvent::Destroy { window_id } => Some(*window_id),
        }
    }

    /// Whether this is a focus gain or a focus loss.
    pub fn is_focus_change(&self) -> (r: bool)
        ensures
            r == (self is Focus || self is Blur),
    {
        match self {
            NiriEvent::Focus { .. } | NiriEvent::Blur { .. } => true,
            _ => false,
        }
    }

    /// Whether the event concerns a window of the application `app_id`.
    pub fn concerns_app(&self, app_id: &str) -> (r: bool)
        ensures
            r == match self.window_spec() {
                Some(w) => w@.app_id == Some(app_id@),
                None => false,
            },
    {
        match self.window() {
            Some(w) => match &w.app_id {
                Some(a) => is_kitty_window(a.as_str(), app_id),
                None => false,
            },
            None => false,
        }
    }
}

/// Whether a window's application id is the one tracked.
pub fn is_kitty_window(app_id: &str, target_app_id: &str) -> (r: bool)
    ensures
        r == (app_id@ == target_app_id@),
{
    let n = app_id.unicode_len();
    if n != target_app_id.unicode_len() {
        return false;
    }
    let mut i: usize = 0;
    while i < n
        invariant
            n == app_id@.len(),
            n == target_app_id@.len(),
            i <= n,
            forall|j: int| 0 <= j < i ==> app_id@[j] == target_app_id@[j],
        decreases n - i,
    {
        if app_id.get_char(i) != target_app_id.get_char(i) {
            return false;
        }
        i = i + 1;
    }
    assert(app_id@ =~= target_app_id@);
    true
}

/// Remembers which terminal process holds the focus.
pub struct FocusTracker {
    current_focused_kitty: Option<i32>,
}

impl View for FocusTracker {
    type V = Option<i32>;

    closed spec fn view(&self) -> Option<i32> {
        self.current_focused_kitty
    }
}

impl FocusTracker {
    pub fn new() -> (r: Self)
        ensures
            r@ is None,
    {
        FocusTracker { current_focused_kitty: None }
    }

    pub fn on_focus_gained(&mut self, pid: i32)
        ensures
            final(self)@ == Some(pid),
    {
        self.current_focused_kitty = Some(pid);
    }

    /// Forgets the focused process and returns it.
    pub fn on_focus_lost(&mut self) -> (r: Option<i32>)
        ensures
            r == old(self)@,
            final(self)@ is None,
    {
        self.current_focused_kitty.take()
    }

    pub fn current_focused(&self) -> (r: Option<i32>)
        ensures
            r == self@,
    {
        self.current_focused_kitty
    }
}

/// A window of a window-list snapshot, with whether it has the focus.
pub struct ListedWindow {
    pub info: WindowInfo,
    pub is_focused: bool,
}

/// The first window of the list with the given id.
pub open spec fn find_window(ws: Seq<WindowView>, id: u64) -> Option<WindowView>
    decreases ws.len(),
{
    if ws.len() == 0 {
        None
    } else if ws[0].id == id {
        Some(ws[0])
    } else {
        find_window(ws.drop_first(), id)
    }
}

/// The first focused window of the list.
pub open spec fn find_focused(ws: Seq<(WindowView, bool)>) -> Option<WindowView>
    decreases ws.len(),
{
    if ws.len() == 0 {
        None
    } else if ws[0].1 {
        Some(ws[0].0)
    } else {
        find_focused(ws.drop_first())
    }
}

pub open spec fn infos_view(ws: Seq<WindowInfo>) -> Seq<WindowView> {
    ws.map_values(|w: WindowInfo| w@)
}

pub open spec fn listed_view(ws: Seq<ListedWindow>) -> Seq<(WindowView, bool)> {
    ws.map_values(|w: ListedWindow| (w.info@, w.is_focused))
}

pub open spec fn events_view(es: Seq<NiriEvent>) -> Seq<EventView> {
    es.map_values(|e: NiriEvent| e@)
}

/// The events for a focus change to window `id`, seen against the window
/// list `ws`, when `last` had the focus before: a loss of focus for `last`
/// if it is another window that is still listed, then a gain for `id`.
/// Nothing when `id` is not listed.
pub open spec fn focus_change_events(last: Option<u64>, id: u64, ws: Seq<WindowView>) -> Seq<EventView> {
    match find_window(ws, id) {
        None => Seq::empty(),
        Some(w) => {
            let blur = match last {
                Some(p) => if p != id {
                    match find_window(ws, p) {
                        Some(pw) => seq![EventView::Blur { window_id: p, window: pw }],
                        None => Seq::empty(),
                    }
                } else {
                    Seq::empty()
                },
                None => Seq::empty(),
            };
            blur.push(EventView::Focus { window_id: id, window: w })
        },
    }
}

fn find_window_exec(ws: &Vec<WindowInfo>, id: u64) -> (r: Option<WindowInfo>)
    ensures
        match r {
            Some(w) => find_window(infos_view(ws@), id) == Some(w@),
            None => find_window(infos_view(ws@), id) is None,
        },
{
    let mut i: usize = 0;
    assert(infos_view(ws@).subrange(0, ws@.len() as int) =~= infos_view(ws@));
    while i < ws.len()
        invariant
            i <= ws@.len(),
            find_window(infos_view(ws@), id) == find_window(infos_view(ws@).subrange(i as int, ws@.len() as int), id),
        decreases ws@.len() - i,
    {
        let ghost rest = infos_view(ws@).subrange(i as int, ws@.len() as int);
        assert(rest.drop_first() =~= infos_view(ws@).subrange(i + 1, ws@.len() as int));
        if ws[i].id == id {
            return Some(ws[i].duplicate());
        }
        i = i + 1;
    }
    None
}

/// Turns raw focus notifications into focus gains and losses, remembering
/// which window had the focus.
pub struct FocusTranslator {
    last_focused: Option<u64>,
}

impl View for FocusTranslator {
    type V = Option<u64>;

    closed spec fn view(&self) -> Option<u64> {
        self.last_focused
    }
}

impl FocusTranslator {
    pub fn new() -> (r: Self)
        ensures
            r@ is None,
    {
        FocusTranslator { last_focused: None }
    }

    pub fn last_focused(&self) -> (r: Option<u64>)
        ensures
            r == self@,
    {
        self.last_focused
    }

    /// Window `id` gained the focus; `windows` is the window list queried
    /// just now.
    pub fn on_focus_changed(&mut self, id: u64, windows: &Vec<WindowInfo>) -> (r: Vec<NiriEvent>)
        ensures
            events_view(r@) == focus_change_events(old(self)@, id, infos_view(windows@)),
            find_window(infos_view(windows@), id) is Some ==> final(self)@ == Some(id),
            find_window(infos_view(windows@), id) is None ==> final(self)@ == old(self)@,
    {
        let mut out: Vec<NiriEvent> = Vec::new();
        let info = match find_window_exec(windows, id) {
            Some(w) => w,
            None => {
                assert(events_view(out@) =~= Seq::empty());
                return out;
            },
        };
        if let Some(prev) = self.last_focused {
            if prev != id {
                if let Some(prev_info) = find_window_exec(windows, prev) {
                    out.push(NiriEvent::Blur { window_id: prev, window: prev_info });
                }
            }
        }
        out.push(NiriEvent::Focus { window_id: id, window: info });
        self.last_focused = Some(id);
        assert(events_view(out@) =~= focus_change_events(old(self)@, id, infos_view(windows@)));
        out
    }

    /// The focus was cleared: no window has it.
    pub fn on_focus_cleared(&mut self)
        ensures
            final(self)@ is None,
    {
        self.last_focused = None;
    }

    /// A new window list: while no window is known to have the focus, the
    /// first focused window of the list gains it.
    pub fn on_windows_changed(&mut self, windows: &Vec<ListedWindow>) -> (r: Vec<NiriEvent>)
        ensures
            old(self)@ is Some ==> r@.len() == 0 && final(self)@ == old(self)@,
            old(self)@ is None ==> match find_focused(listed_view(windows@)) {
                Some(w) => events_view(r@) == seq![EventView::Focus { window_id: w.id, window: w }]
                    && final(self)@ == Some(w.id),
                None => r@.len() == 0 && final(self)@ is None,
            },
    {
        let mut out: Vec<NiriEvent> = Vec::new();
        if self.last_focused.is_some() {
            return out;
        }
        let mut i: usize = 0;
        assert(listed_view(windows@).subrange(0, windows@.len() as int) =~= listed_view(windows@));
        while i < windows.len()
            invariant
                i <= windows@.len(),
                old(self)@ is None,
                out@.len() == 0,
                self.last_focused is None,
                find_focused(listed_view(windows@)) == find_focused(
                    listed_view(windows@).subrange(i as int, windows@.len() as int),
                ),
            decreases windows@.len() - i,
        {
            let ghost rest = listed_view(windows@).subrange(i as int, windows@.len() as int);
            assert(rest.drop_first() =~= listed_view(windows@).subrange(i + 1, windows@.len() as int));
            if windows[i].is_focused {
                let w = windows[i].info.duplicate();
                let wid = w.id;
                out.push(NiriEvent::Focus { window_id: wid, window: w });
                self.last_focused = Some(wid);
                assert(events_view(out@) =~= seq![
                    EventView::Focus { window_id: wid, window: windows@[i as int].info@ },
                ]);
                return out;
            }
            i = i + 1;
        }
        out
    }
}

} // verus!
