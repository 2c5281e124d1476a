//! Page-level models: the task selection of the Downloads page, the cards,
//! switches, theme buttons and captions of the Settings page, the
//! application's own icons and the Plugins page.

use vstd::prelude::*;

use crate::config::{AppConfig, ThemeMode};
use crate::text::{owned, push_str};
use crate::types::Task;

verus! {

/// The gids of the tasks selected on the Downloads page.
pub struct Selection {
    gids: Vec<String>,
}

impl Selection {
    /// The selected gids.
    pub closed spec fn set(&self) -> Set<Seq<char>> {
        self.gids@.map_values(|g: String| g@).to_set()
    }

    /// No gid is listed twice.
    #[verifier::type_invariant]
    pub closed spec fn wf(&self) -> bool {
        self.gids@.map_values(|g: String| g@).no_duplicates()
    }

    pub fn new() -> (s: Selection)
        ensures
            s.wf(),
            s.set() == Set::<Seq<char>>::empty(),
    {
        let s = Selection { gids: Vec::new() };
        assert(s.set() =~= Set::<Seq<char>>::empty());
        s
    }

    fn position(&self, gid: &str) -> (r: Option<usize>)
        ensures
            match r {
                Some(i) => i < self.gids@.len() && self.gids@[i as int]@ == gid@,
                None => forall|i: int| 0 <= i < self.gids@.len() ==> (#[trigger] self.gids@[i])@ != gid@,
            },
    {
        let mut i: usize = 0;
        while i < self.gids.len()
            invariant
                i <= self.gids.len(),
                forall|k: int| 0 <= k < i ==> (#[trigger] self.gids@[k])@ != gid@,
            decreases self.gids.len() - i,
        {
            if crate::text::str_equals(self.gids[i].as_str(), gid) {
                return Some(i);
            }
            i = i + 1;
        }
        None
    }

    pub fn contains(&self, gid: &str) -> (r: bool)
        ensures
            r == self.set().contains(gid@),
    {
        let p = self.position(gid);
        proof {
            let v = self.gids@.map_values(|g: String| g@);
            match p {
                Some(i) => {
                    assert(v[i as int] == gid@);
                },
                None => {
                    if v.to_set().contains(gid@) {
                        let k = choose|k: int| 0 <= k < v.len() && v[k] == gid@;
                        assert(self.gids@[k]@ == gid@);
                    }
                },
            }
        }
        p.is_some()
    }

    pub fn len(&self) -> (n: usize)
        ensures
            n == self.set().len(),
    {
        proof {
            use_type_invariant(self);
            self.gids@.map_values(|g: String| g@).unique_seq_to_set();
        }
        self.gids.len()
    }

    pub fn is_empty(&self) -> (r: bool)
        ensures
            r == (self.set().len() == 0),
    {
        self.len() == 0
    }

    pub fn clear(&mut self)
        ensures
            final(self).wf(),
            final(self).set() == Set::<Seq<char>>::empty(),
    {
        self.gids = Vec::new();
        assert(self.set() =~= Set::<Seq<char>>::empty());
    }

    /// Adds `gid`; false when it was already selected.
    pub fn insert(&mut self, gid: &str) -> (added: bool)
        ensures
            final(self).wf(),
            added == !old(self).set().contains(gid@),
            final(self).set() == old(self).set().insert(gid@),
    {
        proof {
            use_type_invariant(&*self);
        }
        if self.contains(gid) {
            proof {
                assert(self.set().insert(gid@) =~= self.set());
            }
            return false;
        }
        let ghost before = self.gids@.map_values(|g: String| g@);
        let mut gids: Vec<String> = Vec::new();
        std::mem::swap(&mut gids, &mut self.gids);
        gids.push(crate::text::owned(gid));
        proof {
            let after = gids@.map_values(|g: String| g@);
            assert(after =~= before.push(gid@));
            before.lemma_push_to_set_commute(gid@);
            assert forall|i: int, j: int| 0 <= i < after.len() && 0 <= j < after.len() && i != j implies after[i] != after[j] by {
                if i < before.len() && j < before.len() {
                } else if i == before.len() {
                    assert(!before.to_set().contains(gid@));
                    assert(before.contains(before[j]));
                } else {
                    assert(!before.to_set().contains(gid@));
                    assert(before.contains(before[i]));
                }
            }
        }
        self.gids = gids;
        true
    }

    /// Drops `gid` from the selection.
    pub fn remove(&mut self, gid: &str)
        ensures
            final(self).wf(),
            final(self).set() == old(self).set().remove(gid@),
    {
        proof {
            use_type_invariant(&*self);
        }
        match self.position(gid) {
            Some(i) => {
                let ghost before = self.gids@.map_values(|g: String| g@);
                let mut gids: Vec<String> = Vec::new();
                std::mem::swap(&mut gids, &mut self.gids);
                gids.remove(i);
                proof {
                    let after = gids@.map_values(|g: String| g@);
                    assert(after =~= before.remove(i as int));
                    assert(before[i as int] == gid@);
                    assert forall|x: Seq<char>| after.to_set().contains(x) <==> before.to_set().remove(gid@).contains(x) by {
                        if after.to_set().contains(x) {
                            let k = choose|k: int| 0 <= k < after.len() && after[k] == x;
                            if k < i {
                                assert(before[k] == x);
                                assert(before[k] != before[i as int]);
                            } else {
                                assert(before[k + 1] == x);
                                assert(before[k + 1] != before[i as int]);
                            }
                        }
                        if before.to_set().remove(gid@).contains(x) {
                            let k = choose|k: int| 0 <= k < before.len() && before[k] == x;
                            assert(k != i);
                            if k < i {
                                assert(after[k] == x);
                            } else {
                                assert(after[k - 1] == x);
                            }
                        }
                    }
                    assert(after.to_set() =~= before.to_set().remove(gid@));
                    assert(after.no_duplicates());
                }
                self.gids = gids;
            },
            None => {
                proof {
                    let v = self.gids@.map_values(|g: String| g@);
                    assert forall|x: Seq<char>| v.to_set().contains(x) <==> v.to_set().remove(gid@).contains(x) by {
                        if x == gid@ && v.to_set().contains(x) {
                            let k = choose|k: int| 0 <= k < v.len() && v[k] == x;
                            assert(self.gids@[k]@ == gid@);
                        }
                    }
                    assert(v.to_set().remove(gid@) =~= v.to_set());
                }
            },
        }
    }

    /// A click on a row: with a modifier the row's selection is toggled,
    /// without one the row becomes the only selected one.
    pub fn toggle(&mut self, gid: &str, additive: bool)
        ensures
            final(self).wf(),
            final(self).set() == toggled(old(self).set(), gid@, additive),
    {
        if additive {
            if !self.insert(gid) {
                self.remove(gid);
            }
        } else {
            self.clear();
            self.insert(gid);
        }
    }

    /// A right click on a row: an unselected row becomes the only selected
    /// one, a selected row keeps the selection.
    pub fn select_for_menu(&mut self, gid: &str)
        ensures
            final(self).wf(),
            final(self).set() == if old(self).set().contains(gid@) {
                old(self).set()
            } else {
                Set::<Seq<char>>::empty().insert(gid@)
            },
    {
        proof {
            use_type_invariant(&*self);
        }
        if !self.contains(gid) {
            self.clear();
            self.insert(gid);
        }
    }

    /// The selected tasks, in list order.
    pub fn selected_tasks<'a>(&self, tasks: &'a Vec<Task>) -> (r: Vec<&'a Task>)
        ensures
            r@.map_values(|t: &Task| *t) == tasks@.filter(|t: Task| self.set().contains(t.gid@)),
    {
        let mut out: Vec<&Task> = Vec::new();
        let mut i: usize = 0;
        while i < tasks.len()
            invariant
                i <= tasks.len(),
                out@.map_values(|t: &Task| *t) == tasks@.take(i as int).filter(|t: Task| self.set().contains(t.gid@)),
            decreases tasks.len() - i,
        {
            proof {
                reveal_with_fuel(Seq::filter, 1);
                assert(tasks@.take(i + 1).drop_last() =~= tasks@.take(i as int));
            }
            if self.contains(tasks[i].gid.as_str()) {
                out.push(&tasks[i]);
            }
            proof {
                assert(out@.map_values(|t: &Task| *t) =~= tasks@.take(i + 1).filter(|t: Task| self.set().contains(t.gid@)));
            }
            i = i + 1;
        }
        assert(tasks@.take(tasks.len() as int) =~= tasks@);
        out
    }
}

/// The selection after a click on the row `g`: with a modifier the row's
/// selection is flipped, without one the row alone is selected.
pub open spec fn toggled(s: Set<Seq<char>>, g: Seq<char>, additive: bool) -> Set<Seq<char>> {
    if additive {
        if s.contains(g) {
            s.remove(g)
        } else {
            s.insert(g)
        }
    } else {
        Set::<Seq<char>>::empty().insert(g)
    }
}

/// Clicking the same row twice with a modifier leaves the selection as it
/// was; clicking it twice without one selects that row alone.
pub proof fn lemma_toggle_twice(s: Set<Seq<char>>, g: Seq<char>)
    ensures
        toggled(toggled(s, g, true), g, true) == s,
        toggled(toggled(s, g, false), g, false) == toggled(s, g, false),
{
    assert(toggled(toggled(s, g, true), g, true) =~= s);
}

/// The cards of the Settings page.
#[derive(Debug, Clone, Copy, PartialEq, Eq, Structural)]
pub enum Card {
    General,
    Appearance,
    Downloads,
    BitTorrent,
    Integration,
    Network,
    Advanced,
    About,
}

pub open spec fn card_title(c: Card) -> Seq<char> {
    match c {
        Card::General => "General"@,
        Card::Appearance => "Appearance"@,
        Card::Downloads => "Downloads"@,
        Card::BitTorrent => "BitTorrent"@,
        Card::Integration => "Integration"@,
        Card::Network => "Network"@,
        Card::Advanced => "Advanced"@,
        Card::About => "About"@,
    }
}

pub open spec fn card_description(c: Card) -> Seq<char> {
    match c {
        Card::General => "Startup, default save folder, notifications"@,
        Card::Appearance => "Theme, language"@,
        Card::Downloads => "Concurrency, bandwidth limits, identity"@,
        Card::BitTorrent => "Trackers, seeding"@,
        Card::Integration => "Browser extensions, CLI, system integrations"@,
        Card::Network => "RPC endpoint and proxy"@,
        Card::Advanced => "Session persistence, maintenance"@,
        Card::About => "Version, source code and manual"@,
    }
}

impl Card {
    pub fn title(&self) -> (r: &'static str)
        ensures
            r@ == card_title(*self),
    {
        match self {
            Card::General => "General",
            Card::Appearance => "Appearance",
            Card::Downloads => "Downloads",
            Card::BitTorrent => "BitTorrent",
            Card::Integration => "Integration",
            Card::Network => "Network",
            Card::Advanced => "Advanced",
            Card::About => "About",
        }
    }

    pub fn description(&self) -> (r: &'static str)
        ensures
            r@ == card_description(*self),
    {
        match self {
            Card::General => "Startup, default save folder, notifications",
            Card::Appearance => "Theme, language",
            Card::Downloads => "Concurrency, bandwidth limits, identity",
            Card::BitTorrent => "Trackers, seeding",
            Card::Integration => "Browser extensions, CLI, system integrations",
            Card::Network => "RPC endpoint and proxy",
            Card::Advanced => "Session persistence, maintenance",
            Card::About => "Version, source code and manual",
        }
    }

    /// The card's icon and the colour it is tinted with.
    pub fn icon(&self) -> (r: (CardIcon, u32))
        ensures
            r == match *self {
                Card::General => (CardIcon::Library("Settings"), 0x8B5CF6u32),
                Card::Appearance => (CardIcon::Library("Palette"), 0x3B82F6u32),
                Card::Downloads => (CardIcon::Own(AppIcon::Download), 0xEF4444u32),
                Card::BitTorrent => (CardIcon::Own(AppIcon::Magnet), 0x2563EBu32),
                Card::Integration => (CardIcon::Own(AppIcon::ToyBrick), 0xE11D48u32),
                Card::Network => (CardIcon::Library("Network"), 0xF97316u32),
                Card::Advanced => (CardIcon::Library("Settings2"), 0x22C55Eu32),
                Card::About => (CardIcon::Library("Info"), 0xEAB308u32),
            },
    {
        match self {
            Card::General => (CardIcon::Library("Settings"), 0x8B5CF6),
            Card::Appearance => (CardIcon::Library("Palette"), 0x3B82F6),
            Card::Downloads => (CardIcon::Own(AppIcon::Download), 0xEF4444),
            Card::BitTorrent => (CardIcon::Own(AppIcon::Magnet), 0x2563EB),
            Card::Integration => (CardIcon::Own(AppIcon::ToyBrick), 0xE11D48),
            Card::Network => (CardIcon::Library("Network"), 0xF97316),
            Card::Advanced => (CardIcon::Library("Settings2"), 0x22C55E),
            Card::About => (CardIcon::Library("Info"), 0xEAB308),
        }
    }
}

/// An icon: one of the application's own, or one of the widget library's
/// named icons.
#[derive(Debug, Clone, Copy, PartialEq, Eq)]
pub enum CardIcon {
    Own(AppIcon),
    Library(&'static str),
}

/// The Settings page's cards in rows of three.
pub fn settings_grid() -> (rows: Vec<Vec<Card>>)
    ensures
        rows@.len() == 3,
        rows@[0]@ == seq![Card::General, Card::Appearance, Card::Downloads],
        rows@[1]@ == seq![Card::BitTorrent, Card::Integration, Card::Network],
        rows@[2]@ == seq![Card::Advanced, Card::About],
{
    vec![
        vec![Card::General, Card::Appearance, Card::Downloads],
        vec![Card::BitTorrent, Card::Integration, Card::Network],
        vec![Card::Advanced, Card::About],
    ]
}

/// The switches of the General card.
#[derive(Debug, Clone, Copy, PartialEq, Eq, Structural)]
pub enum Toggle {
    ResumeOnLaunch,
    NotifyOnComplete,
    NotifyOnError,
    WarnBeforeQuit,
}

pub open spec fn toggle_of(c: AppConfig, t: Toggle) -> bool {
    match t {
        Toggle::ResumeOnLaunch => c.resume_all_when_app_launched,
        Toggle::NotifyOnComplete => c.notify_on_complete,
        Toggle::NotifyOnError => c.notify_on_error,
        Toggle::WarnBeforeQuit => c.warn_before_quit,
    }
}

impl Toggle {
    /// Whether the switch is on in `config`.
    pub fn value(self, config: &AppConfig) -> (r: bool)
        ensures
            r == toggle_of(*config, self),
    {
        match self {
            Toggle::ResumeOnLaunch => config.resume_all_when_app_launched,
            Toggle::NotifyOnComplete => config.notify_on_complete,
            Toggle::NotifyOnError => config.notify_on_error,
            Toggle::WarnBeforeQuit => config.warn_before_quit,
        }
    }

    /// Flips the switch to `checked`; every other setting stays.
    pub fn set(self, config: &mut AppConfig, checked: bool)
        ensures
            toggle_of(*final(config), self) == checked,
            forall|o: Toggle| o != self ==> toggle_of(*final(config), o) == toggle_of(*old(config), o),
            final(config).theme == old(config).theme,
            final(config).download_dir == old(config).download_dir,
            final(config).max_concurrent_downloads == old(config).max_concurrent_downloads,
            final(config).split == old(config).split,
            final(config).max_overall_download_limit == old(config).max_overall_download_limit,
            final(config).max_overall_upload_limit == old(config).max_overall_upload_limit,
            final(config).user_agent == old(config).user_agent,
            final(config).rpc_port == old(config).rpc_port,
            final(config).rpc_secret == old(config).rpc_secret,
            final(config).bt_trackers == old(config).bt_trackers,
            final(config).new_task_show_downloading == old(config).new_task_show_downloading,
            final(config).keep_window_state == old(config).keep_window_state,
    {
        match self {
            Toggle::ResumeOnLaunch => config.resume_all_when_app_launched = checked,
            Toggle::NotifyOnComplete => config.notify_on_complete = checked,
            Toggle::NotifyOnError => config.notify_on_error = checked,
            Toggle::WarnBeforeQuit => config.warn_before_quit = checked,
        }
    }
}

/// A theme button of the Appearance card.
pub struct ThemeChoice {
    pub id: &'static str,
    pub label: &'static str,
    pub mode: ThemeMode,
    /// The button shows the current theme.
    pub active: bool,
}

/// The buttons "Auto", "Light" and "Dark", the current one marked.
pub fn theme_choices(current: ThemeMode) -> (r: Vec<ThemeChoice>)
    ensures
        r@.len() == 3,
        r@[0].id@ == "theme-system"@ && r@[0].label@ == "Auto"@ && r@[0].mode == ThemeMode::System,
        r@[1].id@ == "theme-light"@ && r@[1].label@ == "Light"@ && r@[1].mode == ThemeMode::Light,
        r@[2].id@ == "theme-dark"@ && r@[2].label@ == "Dark"@ && r@[2].mode == ThemeMode::Dark,
        forall|i: int| 0 <= i < 3 ==> (#[trigger] r@[i]).active == (r@[i].mode == current),
{
    vec![
        ThemeChoice { id: "theme-system", label: "Auto", mode: ThemeMode::System, active: current == ThemeMode::System },
        ThemeChoice { id: "theme-light", label: "Light", mode: ThemeMode::Light, active: current == ThemeMode::Light },
        ThemeChoice { id: "theme-dark", label: "Dark", mode: ThemeMode::Dark, active: current == ThemeMode::Dark },
    ]
}

/// The RPC secret as the Network card shows it.
pub fn secret_caption(secret: &String) -> (r: String)
    ensures
        r@ == if secret@.len() == 0 {
            "(none)"@
        } else {
            secret@
        },
{
    if secret.as_str().is_empty() {
        owned("(none)")
    } else {
        secret.clone()
    }
}

/// The version line of the About card.
pub fn about_caption(engine_version: &String) -> (r: String)
    ensures
        r@ == "Version 0.1.0 \u{b7} aria2 "@ + if engine_version@.len() == 0 {
            "\u{2014}"@
        } else {
            "v"@ + engine_version@
        },
{
    let mut s = owned("Version 0.1.0 \u{b7} aria2 ");
    if engine_version.as_str().is_empty() {
        push_str(&mut s, "\u{2014}");
    } else {
        push_str(&mut s, "v");
        push_str(&mut s, engine_version.as_str());
    }
    s
}

/// The projects credited on the About card, with their addresses.
pub fn credits() -> (r: Vec<(&'static str, &'static str)>)
    ensures
        r@.len() == 6,
        r@[0].0@ == "Motrix"@ && r@[0].1@ == "https://github.com/agalwood/Motrix"@,
        r@[1].0@ == "aria2"@ && r@[1].1@ == "https://github.com/aria2/aria2"@,
        r@[2].0@ == "GPUI (Zed)"@ && r@[2].1@ == "https://github.com/zed-industries/zed"@,
        r@[3].0@ == "gpui-component"@ && r@[3].1@ == "https://github.com/longbridge/gpui-component"@,
        r@[4].0@ == "Lucide Icons"@ && r@[4].1@ == "https://github.com/lucide-icons/lucide"@,
        r@[5].0@ == "trackerslist"@ && r@[5].1@ == "https://github.com/ngosang/trackerslist"@,
{
    vec![
        ("Motrix", "https://github.com/agalwood/Motrix"),
        ("aria2", "https://github.com/aria2/aria2"),
        ("GPUI (Zed)", "https://github.com/zed-industries/zed"),
        ("gpui-component", "https://github.com/longbridge/gpui-component"),
        ("Lucide Icons", "https://github.com/lucide-icons/lucide"),
        ("trackerslist", "https://github.com/ngosang/trackerslist"),
    ]
}

/// The application's own icons.
#[derive(Debug, Clone, Copy, PartialEq, Eq, Structural)]
pub enum AppIcon {
    Download,
    Upload,
    RadioTower,
    ToyBrick,
    Trash,
    RotateCcw,
    Link,
    Magnet,
    Gauge,
    ListChecks,
    SquareCheck,
    FileText,
}

pub open spec fn icon_path(i: AppIcon) -> Seq<char> {
    match i {
        AppIcon::Download => "icons/download.svg"@,
        AppIcon::Upload => "icons/upload.svg"@,
        AppIcon::RadioTower => "icons/radio-tower.svg"@,
        AppIcon::ToyBrick => "icons/toy-brick.svg"@,
        AppIcon::Trash => "icons/trash-2.svg"@,
        AppIcon::RotateCcw => "icons/rotate-ccw.svg"@,
        AppIcon::Link => "icons/link-2.svg"@,
        AppIcon::Magnet => "icons/magnet.svg"@,
        AppIcon::Gauge => "icons/gauge.svg"@,
        AppIcon::ListChecks => "icons/list-checks.svg"@,
        AppIcon::SquareCheck => "icons/square-check.svg"@,
        AppIcon::FileText => "icons/file-text.svg"@,
    }
}

impl AppIcon {
    /// The asset path of the icon.
    pub fn path(self) -> (r: &'static str)
        ensures
            r@ == icon_path(self),
    {
        match self {
            AppIcon::Download => "icons/download.svg",
            AppIcon::Upload => "icons/upload.svg",
            AppIcon::RadioTower => "icons/radio-tower.svg",
            AppIcon::ToyBrick => "icons/toy-brick.svg",
            AppIcon::Trash => "icons/trash-2.svg",
            AppIcon::RotateCcw => "icons/rotate-ccw.svg",
            AppIcon::Link => "icons/link-2.svg",
            AppIcon::Magnet => "icons/magnet.svg",
            AppIcon::Gauge => "icons/gauge.svg",
            AppIcon::ListChecks => "icons/list-checks.svg",
            AppIcon::SquareCheck => "icons/square-check.svg",
            AppIcon::FileText => "icons/file-text.svg",
        }
    }
}

impl AppIcon {
    /// The icon stored under an asset path, if it is one of the
    /// application's own.
    pub fn from_path(path: &str) -> (r: Option<AppIcon>)
        ensures
            match r {
                Some(i) => icon_path(i) == path@,
                None => forall|i: AppIcon| icon_path(i) != path@,
            },
    {
        let all: [AppIcon; 12] = [
            AppIcon::Download,
            AppIcon::Upload,
            AppIcon::RadioTower,
            AppIcon::ToyBrick,
            AppIcon::Trash,
            AppIcon::RotateCcw,
            AppIcon::Link,
            AppIcon::Magnet,
            AppIcon::Gauge,
            AppIcon::ListChecks,
            AppIcon::SquareCheck,
            AppIcon::FileText,
        ];
        let mut k: usize = 0;
        while k < 12
            invariant
                k <= 12,
                all@ == seq![
                    AppIcon::Download,
                    AppIcon::Upload,
                    AppIcon::RadioTower,
                    AppIcon::ToyBrick,
                    AppIcon::Trash,
                    AppIcon::RotateCcw,
                    AppIcon::Link,
                    AppIcon::Magnet,
                    AppIcon::Gauge,
                    AppIcon::ListChecks,
                    AppIcon::SquareCheck,
                    AppIcon::FileText,
                ],
                forall|j: int| 0 <= j < k ==> icon_path(#[trigger] all@[j]) != path@,
            decreases 12 - k,
        {
            if crate::text::str_equals(all[k].path(), path) {
                return Some(all[k]);
            }
            k = k + 1;
        }
        proof {
            assert forall|i: AppIcon| icon_path(i) != path@ by {
                let j: int = match i {
                    AppIcon::Download => 0,
                    AppIcon::Upload => 1,
                    AppIcon::RadioTower => 2,
                    AppIcon::ToyBrick => 3,
                    AppIcon::Trash => 4,
                    AppIcon::RotateCcw => 5,
                    AppIcon::Link => 6,
                    AppIcon::Magnet => 7,
                    AppIcon::Gauge => 8,
                    AppIcon::ListChecks => 9,
                    AppIcon::SquareCheck => 10,
                    AppIcon::FileText => 11,
                };
                assert(all@[j] == i);
            }
        }
        None
    }
}

/// The Plugins page (no plugins exist yet).
pub struct PluginsPage;

impl PluginsPage {
    pub fn new() -> (p: PluginsPage) {
        PluginsPage
    }
}

} // verus!
