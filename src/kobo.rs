//! The e-reader's own settings file: reading the whitelisted settings and
//! changing one of them while leaving every other line as it was.
use vstd::prelude::*;

verus! {

/// One item of an INI document, line by line.
#[derive(Clone, Debug)]
pub enum IniItem {
    Error(String),
    Section { name: String, raw: String },
    SectionEnd,
    Property { key: String, val: Option<String>, raw: String },
    Comment { raw: String },
    Blank { raw: String },
}

/// An INI item as plain values.
pub enum IniView {
    Error(Seq<char>),
    Section { name: Seq<char>, raw: Seq<char> },
    SectionEnd,
    Property { key: Seq<char>, val: Option<Seq<char>>, raw: Seq<char> },
    Comment { raw: Seq<char> },
    Blank { raw: Seq<char> },
}

pub open spec fn ini_view(i: IniItem) -> IniView {
    match i {
        IniItem::Error(l) => IniView::Error(l@),
        IniItem::Section { name, raw } => IniView::Section { name: name@, raw: raw@ },
        IniItem::SectionEnd => IniView::SectionEnd,
        IniItem::Property { key, val, raw } => IniView::Property {
            key: key@,
            val: match val {
                Some(v) => Some(v@),
                None => None,
            },
            raw: raw@,
        },
        IniItem::Comment { raw } => IniView::Comment { raw: raw@ },
        IniItem::Blank { raw } => IniView::Blank { raw: raw@ },
    }
}

pub open spec fn ini_views(v: Seq<IniItem>) -> Seq<IniView> {
    Seq::new(v.len(), |k: int| ini_view(v[k]))
}

/// The items an INI document parses into.
pub uninterp spec fn ini_items_of(s: Seq<char>) -> Seq<IniView>;

/// Relies on `ini_roundtrip::Parser`: the items of a document, which depend
/// on the document alone.
#[verifier::external_body]
fn parse_ini(s: &str) -> (r: Vec<IniItem>)
    ensures
        ini_views(r@) == ini_items_of(s@),
{
    ini_roundtrip::Parser::new(s).map(|i| match i {
        ini_roundtrip::Item::Error(l) => IniItem::Error(l.to_string()),
        ini_roundtrip::Item::Section { name, raw } => IniItem::Section { name: name.to_string(), raw: raw.to_string() },
        ini_roundtrip::Item::SectionEnd => IniItem::SectionEnd,
        ini_roundtrip::Item::Property { key, val, raw } => IniItem::Property { key: key.to_string(), val: val.map(|v| v.to_string()), raw: raw.to_string() },
        ini_roundtrip::Item::Comment { raw } => IniItem::Comment { raw: raw.to_string() },
        ini_roundtrip::Item::Blank { raw } => IniItem::Blank { raw: raw.to_string() },
    }).collect()
}

/// What a text is in lower case.
pub uninterp spec fn lower_of(s: Seq<char>) -> Seq<char>;

/// Relies on `str::to_lowercase`: the lower-case form depends on the text alone.
#[verifier::external_body]
fn lowercase(s: &str) -> (r: String)
    ensures
        r@ == lower_of(s@),
{
    s.to_lowercase()
}

pub open spec fn is_digits(s: Seq<char>) -> bool {
    s.len() > 0 && forall|i: int| 0 <= i < s.len() ==> '0' <= #[trigger] s[i] <= '9'
}

pub open spec fn digits_value(s: Seq<char>) -> int
    decreases s.len(),
{
    if s.len() == 0 {
        0
    } else {
        digits_value(s.drop_last()) * 10 + (s.last() as int - '0' as int)
    }
}

/// The text is an `i64` in decimal: an optional sign, digits, and a value in range.
pub open spec fn is_i64_text(s: Seq<char>) -> bool {
    if s.len() > 0 && s[0] == '-' {
        is_digits(s.drop_first()) && digits_value(s.drop_first()) <= i64::MAX + 1
    } else if s.len() > 0 && s[0] == '+' {
        is_digits(s.drop_first()) && digits_value(s.drop_first()) <= i64::MAX
    } else {
        is_digits(s) && digits_value(s) <= i64::MAX
    }
}

/// Relies on `str::parse::<i64>`: it accepts an optional sign and decimal
/// digits whose value fits an `i64`, and nothing else.
#[verifier::external_body]
fn parses_as_i64(s: &str) -> (r: bool)
    ensures
        r == is_i64_text(s@),
{
    s.parse::<i64>().is_ok()
}

pub open spec fn is_bool_text(s: Seq<char>) -> bool {
    s == "true"@ || s == "false"@
}

fn is_bool_str(s: &String) -> (r: bool)
    ensures
        r == is_bool_text(s@),
{
    proof {
        reveal_strlit("true");
        reveal_strlit("false");
    }
    let t = "true".to_string();
    let f = "false".to_string();
    *s == t || *s == f
}

/// Why a setting could not be changed.
#[derive(Clone, Debug, PartialEq, Eq)]
pub enum KoboConfigError {
    NotAllowed(String),
    NotBoolean,
    NotInteger,
}

/// A setting that may be in the file: `None` where the key is absent.
#[derive(Clone, Debug, PartialEq, Eq)]
pub struct KoboConfigSetting {
    pub section: String,
    pub key: String,
    pub value: Option<String>,
}

/// Which keys may be edited, whether new values must keep the old type,
/// and where the file is.
#[derive(Clone, Debug)]
pub struct KoboConfigOptions {
    pub whitelist: Vec<(String, Vec<String>)>,
    pub validate_types: bool,
    pub path: String,
}

impl Default for KoboConfigOptions {
    fn default() -> (r: KoboConfigOptions)
        ensures
            r.validate_types,
            r.path@ == "/mnt/onboard/.kobo/Kobo/Kobo eReader.conf"@,
            r.whitelist@.len() == 1,
            r.whitelist@[0].0@ == "DeveloperSettings"@,
            r.whitelist@[0].1@.len() == 4,
            r.whitelist@[0].1@[0]@ == "ForceWifiOn"@,
            r.whitelist@[0].1@[1]@ == "ForceAllowLandscape"@,
            r.whitelist@[0].1@[2]@ == "AutoUsbGadget"@,
            r.whitelist@[0].1@[3]@ == "ShowKeyboardTaps"@,
    {
        proof {
            reveal_strlit("/mnt/onboard/.kobo/Kobo/Kobo eReader.conf");
            reveal_strlit("DeveloperSettings");
        }
        let keys = vec![
            "ForceWifiOn".to_string(),
            "ForceAllowLandscape".to_string(),
            "AutoUsbGadget".to_string(),
            "ShowKeyboardTaps".to_string(),
        ];
        KoboConfigOptions {
            whitelist: vec![("DeveloperSettings".to_string(), keys)],
            validate_types: true,
            path: "/mnt/onboard/.kobo/Kobo/Kobo eReader.conf".to_string(),
        }
    }
}

/// The settings file's text and how it may be edited.
#[derive(Clone, Debug)]
pub struct KoboConfigFile {
    pub contents: String,
    pub opts: KoboConfigOptions,
}

/// The key is listed for the section (the first entry of the section counts).
pub open spec fn whitelisted(w: Seq<(String, Vec<String>)>, section: Seq<char>, key: Seq<char>) -> bool {
    exists|i: int|
        0 <= i < w.len() && (#[trigger] w[i]).0@ == section && (forall|j: int|
            0 <= j < i ==> (#[trigger] w[j]).0@ != section) && exists|k: int|
            0 <= k < w[i].1@.len() && (#[trigger] w[i].1@[k])@ == key
}

/// A new value may replace an old one: not a non-boolean for a boolean, not
/// a non-integer for an integer.
pub open spec fn types_ok(old_val: Seq<char>, new_val: Seq<char>) -> bool {
    &&& !(is_bool_text(lower_of(old_val)) && !is_bool_text(lower_of(new_val)))
    &&& !(is_i64_text(old_val) && !is_i64_text(new_val))
}

pub fn string_eq(a: &str, b: &String) -> (r: bool)
    ensures
        r == (a@ == b@),
{
    let s = a.to_string();
    s == *b
}

/// Relies on `String::push_str`: appends the text.
#[verifier::external_body]
fn append(s: &mut String, t: &str)
    ensures
        final(s)@ == old(s)@ + t@,
{
    s.push_str(t)
}

/// Relies on `String::pop`: removes the last character.
#[verifier::external_body]
fn drop_last_char(s: &mut String)
    requires
        old(s)@.len() > 0,
    ensures
        final(s)@ == old(s)@.drop_last(),
{
    s.pop();
}

impl KoboConfigFile {
    pub fn is_whitelisted(&self, section: &str, key: &str) -> (r: bool)
        ensures
            r == whitelisted(self.opts.whitelist@, section@, key@),
    {
        let w = &self.opts.whitelist;
        let mut i: usize = 0;
        while i < w.len()
            invariant
                i <= w.len(),
                w == &self.opts.whitelist,
                forall|j: int| 0 <= j < i ==> (#[trigger] w@[j]).0@ != section@,
            decreases w.len() - i,
        {
            if string_eq(section, &w[i].0) {
                let keys = &w[i].1;
                let mut k: usize = 0;
                while k < keys.len()
                    invariant
                        k <= keys.len(),
                        i < w@.len(),
                        w == &self.opts.whitelist,
                        w@[i as int].0@ == section@,
                        forall|j: int| 0 <= j < i ==> (#[trigger] w@[j]).0@ != section@,
                        keys == &w@[i as int].1,
                        forall|m: int| 0 <= m < k ==> (#[trigger] keys@[m])@ != key@,
                    decreases keys.len() - k,
                {
                    if string_eq(key, &keys[k]) {
                        assert(w@[i as int].1@[k as int]@ == key@);
                        assert(0 <= i < w@.len() && (w@[i as int]).0@ == section@ && (forall|j: int|
                            0 <= j < i ==> (#[trigger] w@[j]).0@ != section@) && exists|m: int|
                            0 <= m < w@[i as int].1@.len() && (#[trigger] w@[i as int].1@[m])@ == key@);
                        return true;
                    }
                    k = k + 1;
                }
                proof {
                    if whitelisted(w@, section@, key@) {
                        let a = choose|a: int|
                            0 <= a < w@.len() && (#[trigger] w@[a]).0@ == section@ && (forall|j: int|
                                0 <= j < a ==> (#[trigger] w@[j]).0@ != section@) && exists|m: int|
                                0 <= m < w@[a].1@.len() && (#[trigger] w@[a].1@[m])@ == key@;
                        if a < i {
                            assert(w@[a].0@ != section@);
                        } else if a > i {
                            assert(w@[i as int].0@ != section@);
                        }
                    }
                }
                return false;
            }
            i = i + 1;
        }
        false
    }

    /// Checks that `new_val` may replace `old_val`.
    pub fn validate_types(&self, old_val: &str, new_val: &str) -> (r: Result<(), KoboConfigError>)
        ensures
            r is Ok <==> types_ok(old_val@, new_val@),
            r matches Err(e) ==> e == type_error(old_val@, new_val@),
    {
        let old_lower = lowercase(old_val);
        let new_lower = lowercase(new_val);
        if is_bool_str(&old_lower) && !is_bool_str(&new_lower) {
            Err(KoboConfigError::NotBoolean)
        } else if parses_as_i64(old_val) && !parses_as_i64(new_val) {
            Err(KoboConfigError::NotInteger)
        } else {
            Ok(())
        }
    }
}

/// Relies on `str::ends_with`: whether the text ends with the suffix.
#[verifier::external_body]
fn ends_with(s: &str, suffix: &str) -> (r: bool)
    ensures
        r == (s@.len() >= suffix@.len() && s@.subrange(s@.len() - suffix@.len(), s@.len() as int)
            == suffix@),
{
    s.ends_with(suffix)
}

/// A setting as plain values.
pub struct SettingView {
    pub section: Seq<char>,
    pub key: Seq<char>,
    pub value: Option<Seq<char>>,
}

pub open spec fn setting_view(s: KoboConfigSetting) -> SettingView {
    SettingView {
        section: s.section@,
        key: s.key@,
        value: match s.value {
            Some(v) => Some(v@),
            None => None,
        },
    }
}

pub open spec fn settings_view(v: Seq<KoboConfigSetting>) -> Seq<SettingView> {
    Seq::new(v.len(), |k: int| setting_view(v[k]))
}

/// The whitelisted properties of `items`, read under the section `current`.
pub open spec fn present_settings(
    items: Seq<IniView>,
    current: Seq<char>,
    w: Seq<(String, Vec<String>)>,
) -> Seq<SettingView>
    decreases items.len(),
{
    if items.len() == 0 {
        Seq::empty()
    } else {
        let rest = items.drop_first();
        match items[0] {
            IniView::Section { name, raw: _ } => present_settings(rest, name, w),
            IniView::Property { key, val, raw: _ } => if whitelisted(w, current, key) {
                seq![
                    SettingView {
                        section: current,
                        key,
                        value: Some(
                            match val {
                                Some(v) => v,
                                None => Seq::empty(),
                            },
                        ),
                    },
                ] + present_settings(rest, current, w)
            } else {
                present_settings(rest, current, w)
            },
            IniView::SectionEnd => present_settings(rest, Seq::empty(), w),
            _ => present_settings(rest, current, w),
        }
    }
}

pub open spec fn has_setting(found: Seq<SettingView>, section: Seq<char>, key: Seq<char>) -> bool {
    exists|i: int| 0 <= i < found.len() && (#[trigger] found[i]).section == section && found[i].key == key
}

/// Adds an absent setting for each key of one whitelist section not yet found.
pub open spec fn fill_keys(found: Seq<SettingView>, section: Seq<char>, keys: Seq<String>) -> Seq<SettingView>
    decreases keys.len(),
{
    if keys.len() == 0 {
        found
    } else {
        let k = keys[0]@;
        let next = if has_setting(found, section, k) {
            found
        } else {
            found.push(SettingView { section, key: k, value: None })
        };
        fill_keys(next, section, keys.drop_first())
    }
}

/// Adds an absent setting for each whitelisted key not yet found.
pub open spec fn fill_missing(found: Seq<SettingView>, w: Seq<(String, Vec<String>)>) -> Seq<SettingView>
    decreases w.len(),
{
    if w.len() == 0 {
        found
    } else {
        fill_missing(fill_keys(found, w[0].0@, w[0].1@), w.drop_first())
    }
}

/// State of an edit after some items: the section, whether the key was
/// written, the text so far, and the error that stopped it, if any.
pub struct EditState {
    pub section: Option<Seq<char>>,
    pub changed: bool,
    pub out: Seq<char>,
    pub error: Option<KoboConfigError>,
}

pub open spec fn type_error(old_val: Seq<char>, new_val: Seq<char>) -> KoboConfigError {
    if is_bool_text(lower_of(old_val)) && !is_bool_text(lower_of(new_val)) {
        KoboConfigError::NotBoolean
    } else {
        KoboConfigError::NotInteger
    }
}

pub open spec fn line(s: Seq<char>) -> Seq<char> {
    s + "\n"@
}

pub open spec fn assignment(key: Seq<char>, v: Seq<char>) -> Seq<char> {
    key + "="@ + v
}

/// One item of the edit of `key` in `sec` to `new_val` (`None` removes it).
pub open spec fn edit_step(
    st: EditState,
    item: IniView,
    sec: Seq<char>,
    key: Seq<char>,
    new_val: Option<Seq<char>>,
    validate: bool,
) -> EditState {
    match item {
        IniView::Error(l) => EditState { out: st.out + line(l), ..st },
        IniView::Section { name, raw } => EditState { section: Some(name), out: st.out + line(raw), ..st },
        IniView::Property { key: k, val, raw } => if st.section == Some(sec) && k == key {
            match new_val {
                None => st,
                Some(nv) => {
                    let old_val = match val {
                        Some(v) => v,
                        None => Seq::empty(),
                    };
                    if validate && !types_ok(old_val, nv) {
                        EditState { error: Some(type_error(old_val, nv)), ..st }
                    } else {
                        EditState { out: st.out + line(assignment(k, nv)), changed: true, ..st }
                    }
                },
            }
        } else {
            EditState { out: st.out + line(raw), ..st }
        },
        IniView::SectionEnd => if st.section == Some(sec) && !st.changed {
            match new_val {
                None => st,
                Some(nv) => {
                    let out = if st.out.len() >= 2 && st.out.subrange(st.out.len() - 2, st.out.len() as int) == "\n\n"@ {
                        st.out.drop_last() + line(assignment(key, nv)) + "\n"@
                    } else {
                        st.out + line(assignment(key, nv))
                    };
                    EditState { section: None, changed: true, out, ..st }
                },
            }
        } else {
            EditState { section: None, ..st }
        },
        IniView::Comment { raw } => EditState { out: st.out + line(raw), ..st },
        IniView::Blank { raw } => EditState { out: st.out + line(raw), ..st },
    }
}

/// The edit run over `items` from `st`, stopping at the first error.
pub open spec fn edit_run(
    items: Seq<IniView>,
    st: EditState,
    sec: Seq<char>,
    key: Seq<char>,
    new_val: Option<Seq<char>>,
    validate: bool,
) -> EditState
    decreases items.len(),
{
    if items.len() == 0 || st.error is Some {
        st
    } else {
        edit_run(items.drop_first(), edit_step(st, items[0], sec, key, new_val, validate), sec, key, new_val, validate)
    }
}

/// The document after the edit, or the error that stopped it.
pub open spec fn edited(
    items: Seq<IniView>,
    sec: Seq<char>,
    key: Seq<char>,
    new_val: Option<Seq<char>>,
    validate: bool,
) -> Result<Seq<char>, KoboConfigError> {
    let st = edit_run(
        items,
        EditState { section: None, changed: false, out: Seq::empty(), error: None },
        sec,
        key,
        new_val,
        validate,
    );
    match st.error {
        Some(e) => Err(e),
        None => Ok(
            if !st.changed && new_val is Some {
                st.out + "\n["@ + sec + "]\n"@ + line(assignment(key, new_val->Some_0))
            } else {
                st.out
            },
        ),
    }
}

pub open spec fn opt_view(v: Option<&str>) -> Option<Seq<char>> {
    match v {
        Some(s) => Some(s@),
        None => None,
    }
}

impl KoboConfigFile {
    /// The whitelisted settings of the file, then an absent setting for each
    /// whitelisted key the file does not hold.
    pub fn get_values(&self) -> (r: Vec<KoboConfigSetting>)
        ensures
            settings_view(r@) == fill_missing(
                present_settings(ini_items_of(self.contents@), Seq::empty(), self.opts.whitelist@),
                self.opts.whitelist@,
            ),
    {
        let items = parse_ini(self.contents.as_str());
        self.values_from(&items)
    }

    /// `get_values` on the parsed items of the file.
    pub fn values_from(&self, items: &Vec<IniItem>) -> (r: Vec<KoboConfigSetting>)
        ensures
            settings_view(r@) == fill_missing(
                present_settings(ini_views(items@), Seq::empty(), self.opts.whitelist@),
                self.opts.whitelist@,
            ),
    {
        let ghost all = ini_views(items@);
        let ghost w = self.opts.whitelist@;
        let mut settings: Vec<KoboConfigSetting> = Vec::new();
        let mut current = String::new();
        let mut i: usize = 0;
        assert(all.subrange(0, all.len() as int) =~= all);
        assert(settings_view(settings@) + present_settings(all, current@, w) =~= present_settings(all, Seq::empty(), w));
        while i < items.len()
            invariant
                i <= items.len(),
                all == ini_views(items@),
                w == self.opts.whitelist@,
                settings_view(settings@) + present_settings(all.subrange(i as int, all.len() as int), current@, w)
                    == present_settings(all, Seq::empty(), w),
            decreases items.len() - i,
        {
            let ghost rest = all.subrange(i as int, all.len() as int);
            assert(rest.drop_first() =~= all.subrange(i + 1, all.len() as int));
            assert(rest[0] == ini_view(items@[i as int]));
            let ghost before = settings_view(settings@);
            match &items[i] {
                IniItem::Section { name, raw: _ } => {
                    current = name.clone();
                },
                IniItem::Property { key, val, raw: _ } => {
                    if self.is_whitelisted(current.as_str(), key.as_str()) {
                        let value = match val {
                            Some(v) => v.clone(),
                            None => String::new(),
                        };
                        let st = KoboConfigSetting { section: current.clone(), key: key.clone(), value: Some(value) };
                        settings.push(st);
                        assert(settings_view(settings@) =~= before.push(setting_view(st)));
                        assert(before.push(setting_view(st)) + present_settings(
                            all.subrange(i + 1, all.len() as int),
                            current@,
                            w,
                        ) =~= before + (seq![setting_view(st)] + present_settings(
                            all.subrange(i + 1, all.len() as int),
                            current@,
                            w,
                        )));
                    }
                },
                IniItem::SectionEnd => {
                    current = String::new();
                },
                _ => {},
            }
            i = i + 1;
        }
        assert(all.subrange(items.len() as int, all.len() as int) =~= Seq::<IniView>::empty());
        assert(settings_view(settings@) =~= settings_view(settings@) + Seq::<SettingView>::empty());
        let wl = &self.opts.whitelist;
        let mut s: usize = 0;
        assert(w.subrange(0, w.len() as int) =~= w);
        while s < wl.len()
            invariant
                s <= wl.len(),
                wl == &self.opts.whitelist,
                w == wl@,
                fill_missing(settings_view(settings@), w.subrange(s as int, w.len() as int))
                    == fill_missing(present_settings(all, Seq::empty(), w), w),
            decreases wl.len() - s,
        {
            assert(w.subrange(s as int, w.len() as int).drop_first() =~= w.subrange(s + 1, w.len() as int));
            let section = &wl[s].0;
            let keys = &wl[s].1;
            let ghost start = settings_view(settings@);
            let mut k: usize = 0;
            assert(keys@.subrange(0, keys@.len() as int) =~= keys@);
            while k < keys.len()
                invariant
                    k <= keys.len(),
                    s < wl@.len(),
                    keys == &wl@[s as int].1,
                    section == &wl@[s as int].0,
                    fill_keys(settings_view(settings@), section@, keys@.subrange(k as int, keys@.len() as int))
                        == fill_keys(start, section@, keys@),
                decreases keys.len() - k,
            {
                assert(keys@.subrange(k as int, keys@.len() as int).drop_first() =~= keys@.subrange(
                    k + 1,
                    keys@.len() as int,
                ));
                let key = &keys[k];
                let mut found = false;
                let mut j: usize = 0;
                while j < settings.len()
                    invariant
                        j <= settings.len(),
                        found == exists|m: int|
                            0 <= m < j && (#[trigger] settings@[m]).section@ == section@ && settings@[m].key@ == key@,
                    decreases settings.len() - j,
                {
                    if settings[j].section == *section && settings[j].key == *key {
                        found = true;
                    }
                    j = j + 1;
                }
                proof {
                    let sv = settings_view(settings@);
                    if found {
                        let m = choose|m: int|
                            0 <= m < settings@.len() && (#[trigger] settings@[m]).section@ == section@ && settings@[m].key@ == key@;
                        assert(sv[m].section == section@ && sv[m].key == key@);
                    }
                    if has_setting(sv, section@, key@) {
                        let m = choose|m: int| 0 <= m < sv.len() && (#[trigger] sv[m]).section == section@ && sv[m].key == key@;
                        assert(settings@[m].section@ == section@ && settings@[m].key@ == key@);
                    }
                }
                if !found {
                    let ghost before = settings_view(settings@);
                    let st = KoboConfigSetting { section: section.clone(), key: key.clone(), value: None };
                    settings.push(st);
                    assert(settings_view(settings@) =~= before.push(SettingView { section: section@, key: key@, value: None }));
                }
                k = k + 1;
            }
            assert(keys@.subrange(keys@.len() as int, keys@.len() as int) =~= Seq::<String>::empty());
            s = s + 1;
        }
        assert(w.subrange(w.len() as int, w.len() as int) =~= Seq::<(String, Vec<String>)>::empty());
        settings
    }
}

pub open spec fn state_of(current: Option<String>, changed: bool, out: String) -> EditState {
    EditState {
        section: match current {
            Some(c) => Some(c@),
            None => None,
        },
        changed,
        out: out@,
        error: None,
    }
}

fn in_section(current: &Option<String>, section: &str) -> (r: bool)
    ensures
        r == (match current {
            Some(c) => Some(c@),
            None => None::<Seq<char>>,
        } == Some(section@)),
{
    match current {
        Some(c) => string_eq(section, c),
        None => false,
    }
}

fn append_line(out: &mut String, t: &str)
    ensures
        final(out)@ == old(out)@ + line(t@),
{
    append(out, t);
    append(out, "\n");
    assert(out@ =~= old(out)@ + line(t@));
}

fn append_assignment(out: &mut String, key: &str, v: &str)
    ensures
        final(out)@ == old(out)@ + line(assignment(key@, v@)),
{
    append(out, key);
    append(out, "=");
    append(out, v);
    append(out, "\n");
    assert(out@ =~= old(out)@ + line(assignment(key@, v@)));
}

impl KoboConfigFile {
    /// Sets `key_to_set` in `section` to `new_val`, or removes it for
    /// `None`, leaving every other line as it was; refuses keys that are not
    /// whitelisted, and values of another type where types are validated.
    pub fn set_value(&mut self, section: &str, key_to_set: &str, new_val: Option<&str>) -> (r: Result<
        (),
        KoboConfigError,
    >)
        ensures
            final(self).opts == old(self).opts,
            !whitelisted(old(self).opts.whitelist@, section@, key_to_set@) ==> (r matches Err(
                KoboConfigError::NotAllowed(k),
            ) && k@ == key_to_set@) && final(self).contents == old(self).contents,
            whitelisted(old(self).opts.whitelist@, section@, key_to_set@) ==> match edited(
                ini_items_of(old(self).contents@),
                section@,
                key_to_set@,
                opt_view(new_val),
                old(self).opts.validate_types,
            ) {
                Ok(t) => r is Ok && final(self).contents@ == t,
                Err(e) => r == Err::<(), KoboConfigError>(e) && final(self).contents == old(self).contents,
            },
    {
        if !self.is_whitelisted(section, key_to_set) {
            return Err(KoboConfigError::NotAllowed(key_to_set.to_string()));
        }
        let items = parse_ini(self.contents.as_str());
        match self.edit_items(&items, section, key_to_set, new_val) {
            Ok(t) => {
                self.contents = t;
                Ok(())
            },
            Err(e) => Err(e),
        }
    }

    /// `set_value` on the parsed items of the file, for a whitelisted key:
    /// the edited text, or the error that stopped the edit.
    pub fn edit_items(&self, items: &Vec<IniItem>, section: &str, key_to_set: &str, new_val: Option<&str>) -> (r:
        Result<String, KoboConfigError>)
        ensures
            match edited(
                ini_views(items@),
                section@,
                key_to_set@,
                opt_view(new_val),
                self.opts.validate_types,
            ) {
                Ok(t) => r matches Ok(s) && s@ == t,
                Err(e) => r == Err::<String, KoboConfigError>(e),
            },
    {
        let ghost all = ini_views(items@);
        let ghost nv_view = opt_view(new_val);
        let ghost validate = self.opts.validate_types;
        let ghost init = EditState { section: None, changed: false, out: Seq::empty(), error: None };
        let mut current: Option<String> = None;
        let mut changed = false;
        let mut out = String::new();
        let mut i: usize = 0;
        assert(all.subrange(0, all.len() as int) =~= all);
        assert(state_of(current, changed, out) == init);
        while i < items.len()
            invariant
                i <= items.len(),
                all == ini_views(items@),
                nv_view == opt_view(new_val),
                validate == self.opts.validate_types,
                init == (EditState { section: None, changed: false, out: Seq::empty(), error: None }),
                edit_run(all.subrange(i as int, all.len() as int), state_of(current, changed, out), section@, key_to_set@, nv_view, validate)
                    == edit_run(all, init, section@, key_to_set@, nv_view, validate),
            decreases items.len() - i,
        {
            let ghost rest = all.subrange(i as int, all.len() as int);
            assert(rest.drop_first() =~= all.subrange(i + 1, all.len() as int));
            assert(rest[0] == ini_view(items@[i as int]));
            let ghost prev = state_of(current, changed, out);
            let ghost next = edit_step(prev, rest[0], section@, key_to_set@, nv_view, validate);
            match &items[i] {
                IniItem::Error(l) => {
                    append_line(&mut out, l.as_str());
                },
                IniItem::Section { name, raw } => {
                    current = Some(name.clone());
                    append_line(&mut out, raw.as_str());
                },
                IniItem::Property { key, val, raw } => {
                    if in_section(&current, section) && string_eq(key_to_set, key) {
                        match new_val {
                            None => {},
                            Some(nv) => {
                                let old_v: &str = match val {
                                    Some(v) => v.as_str(),
                                    None => "",
                                };
                                proof {
                                    reveal_strlit("");
                                    let vv = match val {
                                        Some(v) => Some(v@),
                                        None => None::<Seq<char>>,
                                    };
                                    assert(rest[0] == IniView::Property { key: key@, val: vv, raw: raw@ });
                                    assert(old_v@ == match vv {
                                        Some(v) => v,
                                        None => Seq::<char>::empty(),
                                    });
                                }
                                if self.opts.validate_types {
                                    if let Err(e) = self.validate_types(old_v, nv) {
                                        assert(next.error == Some(e));
                                        assert(edit_run(all.subrange(i + 1, all.len() as int), next, section@, key_to_set@, nv_view, validate) == next);
                                        return Err(e);
                                    }
                                }
                                append_assignment(&mut out, key.as_str(), nv);
                                changed = true;
                            },
                        }
                    } else {
                        append_line(&mut out, raw.as_str());
                    }
                },
                IniItem::SectionEnd => {
                    if in_section(&current, section) && !changed {
                        match new_val {
                            None => {},
                            Some(nv) => {
                                proof {
                                    reveal_strlit("\n\n");
                                }
                                if ends_with(out.as_str(), "\n\n") {
                                    let ghost o = out@;
                                    drop_last_char(&mut out);
                                    append_assignment(&mut out, key_to_set, nv);
                                    append(&mut out, "\n");
                                    assert(out@ =~= o.drop_last() + line(assignment(key_to_set@, nv@)) + "\n"@);
                                } else {
                                    append_assignment(&mut out, key_to_set, nv);
                                }
                                changed = true;
                                current = None;
                            },
                        }
                    } else {
                        current = None;
                    }
                },
                IniItem::Comment { raw } => {
                    append_line(&mut out, raw.as_str());
                },
                IniItem::Blank { raw } => {
                    append_line(&mut out, raw.as_str());
                },
            }
            assert(state_of(current, changed, out) == next);
            i = i + 1;
        }
        assert(all.subrange(items.len() as int, all.len() as int) =~= Seq::<IniView>::empty());
        if !changed {
            if let Some(nv) = new_val {
                append(&mut out, "\n[");
                append(&mut out, section);
                append(&mut out, "]\n");
                append_assignment(&mut out, key_to_set, nv);
            }
        }
        Ok(out)
    }
}

} // verus!
