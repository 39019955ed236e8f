//! The system tray's decisions: which windows it holds, what it does on
//! each X event, how wide it is and where it puts its icons. Windows are
//! X resource ids; the requests themselves are sent by the caller.
use crate::utils::{Position, Rectangle};
use crate::widgets::Size;
use vstd::prelude::*;

verus! {

/// The opcode of a client message that asks the tray to dock a window.
pub const SYSTEM_TRAY_REQUEST_DOCK: u32 = 0;

/// The resource id X uses for "no window".
pub const NO_WINDOW: u32 = 0;

/// An X event as the tray reads it.
#[derive(Debug, Clone, Copy)]
pub enum SystrayEvent {
    /// A client message; its data when it is made of 32-bit values.
    ClientMessage(Option<[u32; 5]>),
    /// The window was destroyed.
    DestroyNotify(u32),
    PropertyNotify,
    /// The window (second) got a new parent (first).
    ReparentNotify(u32, u32),
    SelectionClear,
    Unknown,
}

/// What the tray does with an event.
#[derive(Debug, Clone, Copy, PartialEq, Eq, Structural)]
pub enum TrayAction {
    /// Dock the window (and release it if docking fails).
    Dock(u32),
    /// Release the window.
    Release(u32),
    /// Nothing.
    Ignore,
}

/// The action for an event: a docking request docks the window named in
/// the message, a destroyed window or one moved to another parent than the
/// tray is released, and everything else is ignored.
pub open spec fn spec_tray_action(event: SystrayEvent, tray: u32) -> TrayAction {
    match event {
        SystrayEvent::ClientMessage(Some(data)) => if data[1] == SYSTEM_TRAY_REQUEST_DOCK {
            TrayAction::Dock(data[2])
        } else {
            TrayAction::Ignore
        },
        SystrayEvent::DestroyNotify(w) => TrayAction::Release(w),
        SystrayEvent::ReparentNotify(parent, w) => if parent != tray {
            TrayAction::Release(w)
        } else {
            TrayAction::Ignore
        },
        _ => TrayAction::Ignore,
    }
}

/// What the tray does with each event: a client message with the docking
/// opcode as its second value docks the window named by its third value,
/// any other client message is ignored; a destroyed window is released; a
/// window moved to another parent than the tray is released, one moved into
/// the tray is kept; every other event is ignored.
pub proof fn lemma_tray_actions(data: [u32; 5], tray: u32, w: u32, parent: u32)
    ensures
        data[1] == SYSTEM_TRAY_REQUEST_DOCK ==> spec_tray_action(
            SystrayEvent::ClientMessage(Some(data)),
            tray,
        ) == TrayAction::Dock(data[2]),
        data[1] != SYSTEM_TRAY_REQUEST_DOCK ==> spec_tray_action(
            SystrayEvent::ClientMessage(Some(data)),
            tray,
        ) == TrayAction::Ignore,
        spec_tray_action(SystrayEvent::ClientMessage(None), tray) == TrayAction::Ignore,
        spec_tray_action(SystrayEvent::DestroyNotify(w), tray) == TrayAction::Release(w),
        parent != tray ==> spec_tray_action(SystrayEvent::ReparentNotify(parent, w), tray)
            == TrayAction::Release(w),
        spec_tray_action(SystrayEvent::ReparentNotify(tray, w), tray) == TrayAction::Ignore,
        spec_tray_action(SystrayEvent::PropertyNotify, tray) == TrayAction::Ignore,
        spec_tray_action(SystrayEvent::SelectionClear, tray) == TrayAction::Ignore,
        spec_tray_action(SystrayEvent::Unknown, tray) == TrayAction::Ignore,
{
}

/// Decides what the tray does with `event`; `tray` is the tray's own window,
/// which must exist by the time a window is reparented.
pub fn tray_action(event: &SystrayEvent, tray: Option<u32>) -> (r: TrayAction)
    requires
        event is ReparentNotify ==> tray is Some,
    ensures
        r == spec_tray_action(*event, tray.unwrap_or(NO_WINDOW)),
{
    match event {
        SystrayEvent::ClientMessage(Some(data)) => {
            if data[1] == SYSTEM_TRAY_REQUEST_DOCK {
                TrayAction::Dock(data[2])
            } else {
                TrayAction::Ignore
            }
        },
        SystrayEvent::DestroyNotify(w) => TrayAction::Release(*w),
        SystrayEvent::ReparentNotify(parent, w) => {
            let tray = tray.unwrap();
            if *parent != tray {
                TrayAction::Release(*w)
            } else {
                TrayAction::Ignore
            }
        },
        _ => TrayAction::Ignore,
    }
}

/// `s` without any occurrence of `w`, the order of the rest kept.
pub open spec fn without(s: Seq<u32>, w: u32) -> Seq<u32>
    decreases s.len(),
{
    if s.len() == 0 {
        s
    } else {
        without(s.drop_last(), w) + if s.last() == w {
            Seq::empty()
        } else {
            seq![s.last()]
        }
    }
}

/// No window occurs twice.
pub open spec fn no_duplicates(s: Seq<u32>) -> bool {
    forall|i: int, j: int| 0 <= i < s.len() && 0 <= j < s.len() && i != j ==> s[i] != s[j]
}

/// The windows docked in the tray, in the order they were docked; none
/// occurs twice.
pub struct TrayChildren {
    children: Vec<u32>,
}

impl View for TrayChildren {
    type V = Seq<u32>;

    closed spec fn view(&self) -> Seq<u32> {
        self.children@
    }
}

/// How far docking or releasing a window got.
#[derive(Debug, Clone, Copy, PartialEq, Eq, Structural)]
pub enum ChildChange {
    /// The window was already docked, or was not docked, so nothing changed.
    Unchanged,
    /// The window was added or removed; `true` when the tray had no other
    /// window (on docking: it must be shown; on releasing: it must be hidden).
    Changed(bool),
}

impl TrayChildren {
    /// No window is docked twice.
    #[verifier::type_invariant]
    spec fn distinct_children(self) -> bool {
        no_duplicates(self.children@)
    }

    pub fn new() -> (r: Self)
        ensures
            r@ == Seq::<u32>::empty(),
    {
        Self { children: Vec::new() }
    }

    pub fn len(&self) -> (r: usize)
        ensures
            r == self@.len(),
    {
        self.children.len()
    }

    pub fn is_empty(&self) -> (r: bool)
        ensures
            r == (self@.len() == 0),
    {
        self.children.len() == 0
    }

    pub fn contains(&self, w: u32) -> (r: bool)
        ensures
            r == self@.contains(w),
    {
        let mut i: usize = 0;
        while i < self.children.len()
            invariant
                i <= self.children@.len(),
                forall|j: int| 0 <= j < i ==> self.children@[j] != w,
            decreases self.children@.len() - i,
        {
            if self.children[i] == w {
                assert(self@[i as int] == w);
                return true;
            }
            i = i + 1;
        }
        false
    }

    /// The windows, in docking order.
    pub fn windows(&self) -> (r: &Vec<u32>)
        ensures
            r@ == self@,
    {
        &self.children
    }

    /// Records `w` as docked, after the others, unless it already is.
    /// `Changed(true)` tells that it is the first window of the tray.
    pub fn adopt(&mut self, w: u32) -> (r: ChildChange)
        ensures
            no_duplicates(final(self)@),
            old(self)@.contains(w) ==> final(self)@ == old(self)@ && r == ChildChange::Unchanged,
            !old(self)@.contains(w) ==> final(self)@ == old(self)@.push(w) && r
                == ChildChange::Changed(old(self)@.len() == 0),
    {
        proof {
            use_type_invariant(&*self);
        }
        if self.contains(w) {
            return ChildChange::Unchanged;
        }
        let ghost v = self@;
        let first = self.children.len() == 0;
        let mut c: Vec<u32> = Vec::new();
        std::mem::swap(&mut c, &mut self.children);
        c.push(w);
        proof {
            assert forall|i: int, j: int|
                0 <= i < c@.len() && 0 <= j < c@.len() && i != j implies c@[i] != c@[j] by {
                if i == v.len() as int {
                    assert(v.contains(c@[j]) || j == i);
                } else if j == v.len() as int {
                    assert(v.contains(c@[i]));
                }
            }
        }
        self.children = c;
        ChildChange::Changed(first)
    }

    /// Forgets `w` if it is docked; `Changed(true)` tells that the tray has
    /// no window left.
    pub fn forget(&mut self, w: u32) -> (r: ChildChange)
        ensures
            no_duplicates(final(self)@),
            final(self)@ == without(old(self)@, w),
            final(self)@ == old(self)@.filter(|x: u32| x != w),
            !old(self)@.contains(w) ==> r == ChildChange::Unchanged,
            old(self)@.contains(w) ==> r == ChildChange::Changed(final(self)@.len() == 0),
    {
        proof {
            use_type_invariant(&*self);
        }
        let ghost v = self@;
        if !self.contains(w) {
            proof {
                lemma_without_absent(v, w);
                lemma_without_keeps_order(v, w);
            }
            return ChildChange::Unchanged;
        }
        let mut kept: Vec<u32> = Vec::new();
        let mut i: usize = 0;
        while i < self.children.len()
            invariant
                v == self.children@,
                i <= v.len(),
                kept@ == without(v.take(i as int), w),
            decreases v.len() - i,
        {
            proof {
                assert(v.take(i + 1).drop_last() =~= v.take(i as int));
            }
            if self.children[i] != w {
                kept.push(self.children[i]);
            }
            proof {
                assert(kept@ =~= without(v.take(i + 1), w));
            }
            i = i + 1;
        }
        proof {
            assert(v.take(v.len() as int) =~= v);
            lemma_without_no_duplicates(v, w);
            lemma_without_keeps_order(v, w);
        }
        self.children = kept;
        ChildChange::Changed(self.children.len() == 0)
    }
}

/// A window that does not occur is removed by nothing.
pub proof fn lemma_without_absent(s: Seq<u32>, w: u32)
    requires
        !s.contains(w),
    ensures
        without(s, w) == s,
    decreases s.len(),
{
    if s.len() > 0 {
        assert(!s.drop_last().contains(w)) by {
            if s.drop_last().contains(w) {
                let k = choose|k: int| 0 <= k < s.drop_last().len() && s.drop_last()[k] == w;
                assert(s[k] == w);
            }
        }
        lemma_without_absent(s.drop_last(), w);
        assert(s.last() != w);
        assert(s.drop_last() + seq![s.last()] =~= s);
    }
}

/// Removing keeps the windows distinct, removes `w`, and keeps every other
/// window that occurred.
pub proof fn lemma_without_no_duplicates(s: Seq<u32>, w: u32)
    requires
        no_duplicates(s),
    ensures
        no_duplicates(without(s, w)),
        !without(s, w).contains(w),
        forall|x: u32| x != w ==> (without(s, w).contains(x) <==> s.contains(x)),
    decreases s.len(),
{
    if s.len() > 0 {
        let t = s.drop_last();
        assert(no_duplicates(t)) by {
            assert forall|i: int, j: int|
                0 <= i < t.len() && 0 <= j < t.len() && i != j implies t[i] != t[j] by {
                assert(t[i] == s[i] && t[j] == s[j]);
            }
        }
        lemma_without_no_duplicates(t, w);
        let r = without(t, w);
        assert forall|x: u32| x != w implies (without(s, w).contains(x) <==> s.contains(x)) by {
            if s.contains(x) {
                let k = choose|k: int| 0 <= k < s.len() && s[k] == x;
                if k < t.len() {
                    assert(t[k] == x);
                    assert(t.contains(x));
                    assert(r.contains(x));
                    let m = choose|m: int| 0 <= m < r.len() && r[m] == x;
                    assert(without(s, w)[m] == x);
                } else {
                    assert(without(s, w)[r.len() as int] == x);
                }
            }
            if without(s, w).contains(x) {
                let m = choose|m: int| 0 <= m < without(s, w).len() && without(s, w)[m] == x;
                if m < r.len() {
                    assert(r[m] == x);
                    assert(r.contains(x));
                    assert(t.contains(x));
                    let k = choose|k: int| 0 <= k < t.len() && t[k] == x;
                    assert(s[k] == x);
                } else {
                    assert(s[s.len() - 1] == x);
                }
            }
        }
        if s.last() != w {
            assert(!r.contains(s.last())) by {
                if r.contains(s.last()) {
                    assert(t.contains(s.last()));
                    let k = choose|k: int| 0 <= k < t.len() && t[k] == s.last();
                    assert(s[k] == s[s.len() - 1]);
                }
            }
            assert(!without(s, w).contains(w)) by {
                if without(s, w).contains(w) {
                    let m = choose|m: int| 0 <= m < without(s, w).len() && without(s, w)[m] == w;
                    if m < r.len() {
                        assert(r[m] == w);
                    }
                }
            }
        } else {
            assert(without(s, w) =~= r);
        }
        assert(no_duplicates(without(s, w))) by {
            let u = without(s, w);
            assert forall|i: int, j: int|
                0 <= i < u.len() && 0 <= j < u.len() && i != j implies u[i] != u[j] by {
                if i < r.len() && j < r.len() {
                    assert(u[i] == r[i] && u[j] == r[j]);
                } else if i < r.len() {
                    assert(u[j] == s.last());
                    assert(u[i] == r[i]);
                    assert(r.contains(u[i]));
                } else if j < r.len() {
                    assert(u[i] == s.last());
                    assert(u[j] == r[j]);
                    assert(r.contains(u[j]));
                }
            }
        }
    }
}

/// Releasing a window keeps every other window in its docking order: what
/// remains is the windows filtered by being another window than `w`.
pub proof fn lemma_without_keeps_order(s: Seq<u32>, w: u32)
    ensures
        without(s, w) == s.filter(|x: u32| x != w),
    decreases s.len(),
{
    reveal(Seq::filter);
    if s.len() > 0 {
        lemma_without_keeps_order(s.drop_last(), w);
        let sub = s.drop_last().filter(|x: u32| x != w);
        if s.last() == w {
            assert(without(s, w) =~= sub);
        } else {
            assert(without(s, w) =~= sub.push(s.last()));
        }
    }
}

/// Docking a window that was not docked and releasing it again leaves the
/// tray's windows as they were.
pub proof fn lemma_adopt_then_forget(s: Seq<u32>, w: u32)
    requires
        !s.contains(w),
    ensures
        without(s.push(w), w) == s,
{
    assert(s.push(w).drop_last() =~= s);
    lemma_without_absent(s, w);
    assert(without(s.push(w), w) =~= without(s, w));
}

/// The width the tray asks for: one pixel when it holds no window, else
/// its icons with the internal padding between them and a pixel on each
/// side.
pub open spec fn spec_tray_width(n: nat, icon_size: u32, internal_padding: u32) -> int {
    if n == 0 {
        1
    } else {
        n * icon_size + (n - 1) * internal_padding + 2
    }
}

/// The tray's size for `n` docked windows.
pub fn tray_size(n: usize, icon_size: u32, internal_padding: u32) -> (r: Size)
    requires
        n <= u32::MAX,
        spec_tray_width(n as nat, icon_size, internal_padding) <= u32::MAX,
    ensures
        r == Size::Static(spec_tray_width(n as nat, icon_size, internal_padding) as u32),
{
    if n == 0 {
        return Size::Static(1);
    }
    let children_len = n as u32;
    assert(children_len * icon_size <= spec_tray_width(n as nat, icon_size, internal_padding)) by (nonlinear_arith)
        requires
            children_len >= 1,
            spec_tray_width(n as nat, icon_size, internal_padding) == children_len * icon_size
                + (children_len - 1) * internal_padding + 2,
            (children_len - 1) * internal_padding >= 0,
    ;
    assert((children_len - 1) * internal_padding >= 0) by (nonlinear_arith)
        requires
            children_len >= 1,
    ;
    Size::Static(children_len * icon_size + (children_len - 1) * internal_padding + 2)
}

/// The horizontal position of the `k`-th icon in the tray window.
pub open spec fn child_offset(k: nat, icon_size: u32, internal_padding: u32) -> int {
    1 + k * (icon_size + internal_padding)
}

/// The icons are placed one pixel in, each the icon size plus the internal
/// padding after the one before it, and the tray is as wide as its icons
/// with a pixel after the last one.
pub proof fn lemma_tray_geometry(n: nat, k: nat, icon_size: u32, internal_padding: u32)
    ensures
        child_offset(0, icon_size, internal_padding) == 1,
        child_offset(k + 1, icon_size, internal_padding) == child_offset(
            k,
            icon_size,
            internal_padding,
        ) + icon_size + internal_padding,
        n > 0 ==> spec_tray_width(n, icon_size, internal_padding) == child_offset(
            (n - 1) as nat,
            icon_size,
            internal_padding,
        ) + icon_size + 1,
        spec_tray_width(0, icon_size, internal_padding) == 1,
{
    assert((k + 1) * (icon_size + internal_padding) == k * (icon_size + internal_padding)
        + icon_size + internal_padding) by (nonlinear_arith);
    assert(0 * (icon_size + internal_padding) == 0) by (nonlinear_arith);
    if n > 0 {
        let m = (n - 1) as nat;
        assert(n * icon_size + m * internal_padding == m * (icon_size + internal_padding)
            + icon_size) by (nonlinear_arith)
            requires
                m == n - 1,
        ;
    }
}

/// The horizontal positions of `n` icons: one pixel in, then one icon and
/// the internal padding after another.
pub fn child_offsets(n: usize, icon_size: u32, internal_padding: u32) -> (r: Vec<u32>)
    requires
        n > 0 ==> child_offset((n - 1) as nat, icon_size, internal_padding) <= u32::MAX,
    ensures
        r@.len() == n,
        forall|k: int| 0 <= k < n ==> r@[k] == child_offset(k as nat, icon_size, internal_padding),
{
    let mut r: Vec<u32> = Vec::new();
    let mut offset: u32 = 1;
    let mut k: usize = 0;
    while k < n
        invariant
            k <= n,
            r@.len() == k,
            n > 0 ==> child_offset((n - 1) as nat, icon_size, internal_padding) <= u32::MAX,
            k < n ==> offset == child_offset(k as nat, icon_size, internal_padding),
            forall|j: int| 0 <= j < k ==> r@[j] == child_offset(j as nat, icon_size, internal_padding),
        decreases n - k,
    {
        r.push(offset);
        if k + 1 < n {
            assert(child_offset((k + 1) as nat, icon_size, internal_padding) <= child_offset(
                (n - 1) as nat,
                icon_size,
                internal_padding,
            )) by (nonlinear_arith)
                requires
                    k + 1 <= n - 1,
            ;
            assert(child_offset((k + 1) as nat, icon_size, internal_padding) == offset + icon_size
                + internal_padding) by (nonlinear_arith)
                requires
                    offset == child_offset(k as nat, icon_size, internal_padding),
            ;
            offset = offset + icon_size + internal_padding;
        }
        k = k + 1;
    }
    r
}

/// The tray window must be moved or resized when its position or width
/// (as X holds them, in 16 bits) differs from its region's.
pub fn needs_reconfigure(x: i16, width: u16, rectangle: &Rectangle) -> (r: bool)
    ensures
        r == (x != rectangle.x as i16 || width != rectangle.width as u16),
{
    x != rectangle.x as i16 || width != rectangle.width as u16
}

/// The vertical position of the tray window: the top of the screen, or
/// the screen's height less the bar's at the bottom.
pub fn tray_y(position: Position, screen_height: u16, bar_height: u32) -> (y: u16)
    requires
        position == Position::Bottom ==> (bar_height as u16) <= screen_height,
    ensures
        y == match position {
            Position::Top => 0,
            Position::Bottom => (screen_height - (bar_height as u16)) as u16,
        },
{
    match position {
        Position::Top => 0,
        Position::Bottom => screen_height - bar_height as u16,
    }
}

/// The side of a tray icon: a pixel less than the bar on top and below.
pub fn tray_icon_size(bar_height: u32) -> (r: u32)
    requires
        bar_height >= 2,
    ensures
        r == bar_height - 2,
{
    bar_height - 2
}

/// The tray's view of who owns the tray selection.
#[derive(Debug, Clone, Copy, PartialEq, Eq, Structural)]
pub enum SelectionOwner {
    /// The tray owns it already.
    Tray,
    /// Nobody owns it: the tray claims it.
    Nobody,
    /// Another client owns it: the tray cannot work.
    Other,
}

/// Who owns the selection, from the owner X reports.
pub fn selection_owner(owner: u32, tray: u32) -> (r: SelectionOwner)
    ensures
        r == if owner == tray {
            SelectionOwner::Tray
        } else if owner == NO_WINDOW {
            SelectionOwner::Nobody
        } else {
            SelectionOwner::Other
        },
{
    if owner == tray {
        SelectionOwner::Tray
    } else if owner == NO_WINDOW {
        SelectionOwner::Nobody
    } else {
        SelectionOwner::Other
    }
}

} // verus!
