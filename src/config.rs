//! Configuration values with their defaults, the command line's commands,
//! and the ordered entries of the index page.
use vstd::prelude::*;

verus! {

/// Where the application keeps its files, and its port.
#[derive(Clone, Debug)]
pub struct AppConfig {
    pub data_dir: String,
    pub udev_dir: String,
    pub user_dir: String,
    pub port: u32,
}

impl Default for AppConfig {
    fn default() -> (r: AppConfig)
        ensures
            r.data_dir@ == "/opt/wifiremote/data"@,
            r.udev_dir@ == "/etc/udev/rules.d"@,
            r.user_dir@ == "/mnt/onboard/.adds/wifiremote"@,
            r.port == 80,
    {
        proof {
            reveal_strlit("/opt/wifiremote/data");
            reveal_strlit("/etc/udev/rules.d");
            reveal_strlit("/mnt/onboard/.adds/wifiremote");
        }
        AppConfig {
            data_dir: "/opt/wifiremote/data".to_string(),
            udev_dir: "/etc/udev/rules.d".to_string(),
            user_dir: "/mnt/onboard/.adds/wifiremote".to_string(),
            port: 80,
        }
    }
}

#[derive(Clone, Debug)]
pub struct PageTurnerOptions {
    pub next_color: String,
    pub prev_color: String,
    pub enable_arbitrary_input: bool,
    pub prompt_fullscreen: bool,
}

impl Default for PageTurnerOptions {
    fn default() -> (r: PageTurnerOptions)
        ensures
            r.next_color@ == "#33b249"@,
            r.prev_color@ == "#5783db"@,
            r.enable_arbitrary_input,
            !r.prompt_fullscreen,
    {
        proof {
            reveal_strlit("#33b249");
            reveal_strlit("#5783db");
        }
        PageTurnerOptions {
            next_color: "#33b249".to_string(),
            prev_color: "#5783db".to_string(),
            enable_arbitrary_input: true,
            prompt_fullscreen: false,
        }
    }
}

#[derive(Clone, Debug)]
pub struct RemoteOptions {
    pub color1: String,
    pub color2: String,
    pub enable_arbitrary_input: bool,
    pub prompt_fullscreen: bool,
}

impl Default for RemoteOptions {
    fn default() -> (r: RemoteOptions)
        ensures
            r.color1@ == "#5783db"@,
            r.color2@ == "#33b249"@,
            r.enable_arbitrary_input,
            !r.prompt_fullscreen,
    {
        proof {
            reveal_strlit("#33b249");
            reveal_strlit("#5783db");
        }
        RemoteOptions {
            color1: "#5783db".to_string(),
            color2: "#33b249".to_string(),
            enable_arbitrary_input: true,
            prompt_fullscreen: false,
        }
    }
}

#[derive(Clone, Debug)]
pub struct VoiceActivationOptions {
    pub language_code: String,
}

impl Default for VoiceActivationOptions {
    fn default() -> (r: VoiceActivationOptions)
        ensures
            r.language_code@ == "en-US"@,
    {
        proof {
            reveal_strlit("en-US");
        }
        VoiceActivationOptions { language_code: "en-US".to_string() }
    }
}

/// The command line: the two configuration files and a subcommand.
#[derive(Clone, Debug)]
pub struct Cli {
    pub user_config: String,
    pub app_config: String,
    pub command: Option<Commands>,
}

#[derive(Clone, Debug)]
pub enum Commands {
    Start,
    Stop,
    Serve,
    Restart,
    Enable { now: bool },
    Disable { now: bool },
    Status,
    Toggle,
    Uninstall { dry_run: bool },
    Screenshot { delay: u64, use_fbink: bool },
    CreateUserConfig { path: String },
    CreateAppConfig { path: String },
}

/// The subcommand that restarts the server, to be run in a new process.
pub fn restart_server() -> (cmd: String)
    ensures
        cmd@ == "restart"@,
{
    proof {
        reveal_strlit("restart");
    }
    "restart".to_string()
}

/// An entry of the index page.
#[derive(Clone, Debug, PartialEq, Eq)]
pub struct IndexItem {
    pub href: String,
    pub name: String,
    pub sort_value: u8,
}

/// Whether and how an entry of the index page is shown.
#[derive(Clone, Debug)]
pub struct IndexItemOptions {
    pub visible: bool,
    pub display_name: String,
    pub sort_value: u8,
}

pub fn opts(display_name: &str, sort_value: u8, visible: bool) -> (r: IndexItemOptions)
    ensures
        r.visible == visible,
        r.display_name@ == display_name@,
        r.sort_value == sort_value,
{
    IndexItemOptions { visible, display_name: display_name.to_string(), sort_value }
}

/// The index page's entries.
#[derive(Clone, Debug)]
pub struct IndexOptions {
    pub color1: String,
    pub color2: String,
    pub setup: IndexItemOptions,
    pub page_turner: IndexItemOptions,
    pub custom_actions: IndexItemOptions,
    pub remote_control: IndexItemOptions,
    pub screenshot: IndexItemOptions,
    pub edit_config: IndexItemOptions,
    pub auto_turner: IndexItemOptions,
    pub voice_activation: IndexItemOptions,
    pub developer_settings: IndexItemOptions,
    pub troubleshooting: IndexItemOptions,
}

/// An index entry as plain values.
pub struct ItemView {
    pub href: Seq<char>,
    pub name: Seq<char>,
    pub sort_value: u8,
}

pub open spec fn item_view(i: IndexItem) -> ItemView {
    ItemView { href: i.href@, name: i.name@, sort_value: i.sort_value }
}

pub open spec fn items_view(s: Seq<IndexItem>) -> Seq<ItemView> {
    Seq::new(s.len(), |k: int| item_view(s[k]))
}

/// Puts `x` after every element of the sorted `s` whose key is not above its own.
pub open spec fn insert_by_key(s: Seq<ItemView>, x: ItemView) -> Seq<ItemView>
    decreases s.len(),
{
    if s.len() == 0 || s.last().sort_value <= x.sort_value {
        s.push(x)
    } else {
        insert_by_key(s.drop_last(), x).push(s.last())
    }
}

/// The stable sort of `s` by key.
pub open spec fn sorted_by_key(s: Seq<ItemView>) -> Seq<ItemView>
    decreases s.len(),
{
    if s.len() == 0 {
        s
    } else {
        insert_by_key(sorted_by_key(s.drop_last()), s.last())
    }
}

/// The visible entries, in the page's fixed order.
pub open spec fn visible_entries(e: Seq<(Seq<char>, IndexItemOptions)>) -> Seq<ItemView>
    decreases e.len(),
{
    if e.len() == 0 {
        Seq::empty()
    } else if e.last().1.visible {
        visible_entries(e.drop_last()).push(
            ItemView { href: e.last().0, name: e.last().1.display_name@, sort_value: e.last().1.sort_value },
        )
    } else {
        visible_entries(e.drop_last())
    }
}

fn insert_item(out: &mut Vec<IndexItem>, x: IndexItem)
    ensures
        items_view(final(out)@) == insert_by_key(items_view(old(out)@), item_view(x)),
    decreases old(out)@.len(),
{
    let ghost before = out@;
    if out.len() == 0 || out[out.len() - 1].sort_value <= x.sort_value {
        out.push(x);
        assert(items_view(out@) =~= items_view(before).push(item_view(x)));
    } else {
        let last = out.pop().unwrap();
        assert(items_view(out@) =~= items_view(before).drop_last());
        insert_item(out, x);
        let ghost mid = out@;
        out.push(last);
        assert(items_view(out@) =~= items_view(mid).push(item_view(last)));
    }
}

impl IndexOptions {
    pub open spec fn entries(&self) -> Seq<(Seq<char>, IndexItemOptions)> {
        seq![
            ("setup"@, self.setup),
            ("page-turner"@, self.page_turner),
            ("custom-actions"@, self.custom_actions),
            ("remote-control"@, self.remote_control),
            ("edit-config"@, self.edit_config),
            ("screenshot"@, self.screenshot),
            ("auto-turner"@, self.auto_turner),
            ("voice-activation"@, self.voice_activation),
            ("developer-settings"@, self.developer_settings),
            ("troubleshooting"@, self.troubleshooting),
        ]
    }

    /// The visible entries, stably sorted by their sort value.
    pub fn items(&self) -> (r: Vec<IndexItem>)
        ensures
            items_view(r@) == sorted_by_key(visible_entries(self.entries())),
    {
        let mut out: Vec<IndexItem> = Vec::new();
        let ghost e = self.entries();
        proof {
            reveal_strlit("setup");
            reveal_strlit("page-turner");
            reveal_strlit("custom-actions");
            reveal_strlit("remote-control");
            reveal_strlit("edit-config");
            reveal_strlit("screenshot");
            reveal_strlit("auto-turner");
            reveal_strlit("voice-activation");
            reveal_strlit("developer-settings");
            reveal_strlit("troubleshooting");
            assert(items_view(out@) =~= sorted_by_key(visible_entries(e.subrange(0, 0))));
        }
        self.add_item(&mut out, "setup", &self.setup, 0);
        self.add_item(&mut out, "page-turner", &self.page_turner, 1);
        self.add_item(&mut out, "custom-actions", &self.custom_actions, 2);
        self.add_item(&mut out, "remote-control", &self.remote_control, 3);
        self.add_item(&mut out, "edit-config", &self.edit_config, 4);
        self.add_item(&mut out, "screenshot", &self.screenshot, 5);
        self.add_item(&mut out, "auto-turner", &self.auto_turner, 6);
        self.add_item(&mut out, "voice-activation", &self.voice_activation, 7);
        self.add_item(&mut out, "developer-settings", &self.developer_settings, 8);
        self.add_item(&mut out, "troubleshooting", &self.troubleshooting, 9);
        assert(e.subrange(0, 10) =~= e);
        out
    }

    fn add_item(&self, out: &mut Vec<IndexItem>, href: &str, o: &IndexItemOptions, k: usize)
        requires
            k < 10,
            self.entries()[k as int] == (href@, *o),
            items_view(old(out)@) == sorted_by_key(visible_entries(self.entries().subrange(0, k as int))),
        ensures
            items_view(final(out)@) == sorted_by_key(
                visible_entries(self.entries().subrange(0, k + 1)),
            ),
    {
        let ghost e = self.entries();
        assert(e.subrange(0, k + 1).drop_last() =~= e.subrange(0, k as int));
        if o.visible {
            let x = IndexItem { href: href.to_string(), name: o.display_name.clone(), sort_value: o.sort_value };
            let ghost v = item_view(x);
            let ghost vis = visible_entries(e.subrange(0, k as int));
            assert(visible_entries(e.subrange(0, k + 1)) == vis.push(v));
            assert(vis.push(v).drop_last() =~= vis);
            insert_item(out, x);
        }
    }
}

impl Default for IndexOptions {
    fn default() -> (r: IndexOptions)
        ensures
            r.color1@ == "#33b249"@,
            r.color2@ == "#5783db"@,
            r.setup.sort_value == 10 && r.page_turner.sort_value == 20
                && r.custom_actions.sort_value == 30 && r.remote_control.sort_value == 40
                && r.screenshot.sort_value == 50 && r.edit_config.sort_value == 60
                && r.auto_turner.sort_value == 70 && r.voice_activation.sort_value == 80
                && r.developer_settings.sort_value == 90 && r.troubleshooting.sort_value == 100,
    {
        proof {
            reveal_strlit("#33b249");
            reveal_strlit("#5783db");
        }
        IndexOptions {
            color1: "#33b249".to_string(),
            color2: "#5783db".to_string(),
            setup: opts("Initial Setup", 10, true),
            page_turner: opts("Page Turner", 20, true),
            custom_actions: opts("Custom Actions", 30, true),
            remote_control: opts("Remote Control", 40, true),
            screenshot: opts("Screenshot", 50, true),
            edit_config: opts("Edit Config", 60, true),
            auto_turner: opts("Auto Turner", 70, true),
            voice_activation: opts("Voice Activation", 80, true),
            developer_settings: opts("Developer Settings", 90, true),
            troubleshooting: opts("Troubleshooting", 100, true),
        }
    }
}

} // verus!
