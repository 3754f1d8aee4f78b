//! The layered configuration: per-application mappings from modifier and
//! gesture to actions, resolved against the focused application with a
//! `global` fallback, and the decisions of hot reloading.

use vstd::prelude::*;
use crate::text::{after_last, after_last_of};

verus! {

/// Whether rotation is quantised to detents.
#[derive(Clone, Copy, Debug, PartialEq, Eq, Structural)]
pub enum RatchetMode {
    Free,
    Ratcheted,
}

impl Default for RatchetMode {
    fn default() -> (r: Self)
        ensures
            r == RatchetMode::Ratcheted,
    {
        RatchetMode::Ratcheted
    }
}

/// The single keyboard modifier that selects a mapping.
#[derive(Clone, Copy, Debug, PartialEq, Eq, Hash, Structural)]
pub enum Modifier {
    Unmodified,
    Shift,
    Alt,
    Ctrl,
}

/// The modifier that a raw bitmask stands for, by priority Alt, Shift, Ctrl.
pub open spec fn modifier_of(v: u8) -> Modifier {
    if v & 0x44 != 0 {
        Modifier::Alt
    } else if v & 0x22 != 0 {
        Modifier::Shift
    } else if v & 0x11 != 0 {
        Modifier::Ctrl
    } else {
        Modifier::Unmodified
    }
}

impl From<u8> for Modifier {
    fn from(v: u8) -> Self {
        if v & 0x44 != 0 {
            Modifier::Alt
        } else if v & 0x22 != 0 {
            Modifier::Shift
        } else if v & 0x11 != 0 {
            Modifier::Ctrl
        } else {
            Modifier::Unmodified
        }
    }
}

impl vstd::std_specs::convert::FromSpecImpl<u8> for Modifier {
    open spec fn obeys_from_spec() -> bool {
        true
    }

    open spec fn from_spec(v: u8) -> Self {
        modifier_of(v)
    }
}

/// With bits of both the Alt group and the Shift group set, the modifier is Alt.
pub proof fn lemma_alt_over_shift(v: u8)
    requires
        v & 0x44 != 0,
        v & 0x22 != 0,
    ensures
        modifier_of(v) == Modifier::Alt,
{
}

/// The kind of gesture that an action list is keyed by.
#[derive(Clone, Copy, Debug, PartialEq, Eq, Structural)]
pub enum Action {
    Touch,
    Release,
    Left,
    LeftPressed,
    Right,
    RightPressed,
    Click,
}

/// One thing to do for a gesture.
#[derive(Debug, PartialEq, Eq)]
pub enum Operation {
    /// A key symbol and the modifier bits (shift 1, ctrl 4, alt 8) to hold with it.
    KeyPress(u32, u8),
    /// A command line, run without a shell.
    Execute(String),
}

/// The action lists of one modifier of one application.
#[derive(Debug)]
pub struct ButtonMapping {
    pub mode: Option<RatchetMode>,
    pub touch: Vec<Operation>,
    pub release: Vec<Operation>,
    pub click: Vec<Operation>,
    pub left: Vec<Operation>,
    pub right: Vec<Operation>,
    pub left_pressed: Vec<Operation>,
    pub right_pressed: Vec<Operation>,
}

impl ButtonMapping {
    /// The action list of gesture kind `a`.
    pub open spec fn actions(self, a: Action) -> Seq<Operation> {
        match a {
            Action::Touch => self.touch@,
            Action::Release => self.release@,
            Action::Left => self.left@,
            Action::LeftPressed => self.left_pressed@,
            Action::Right => self.right@,
            Action::RightPressed => self.right_pressed@,
            Action::Click => self.click@,
        }
    }
}

/// The mapping of one application: a default mode and a button mapping per modifier.
#[derive(Debug)]
pub struct AppMapping {
    pub mode: RatchetMode,
    pub unmodified: Option<ButtonMapping>,
    pub shift: Option<ButtonMapping>,
    pub alt: Option<ButtonMapping>,
    pub ctrl: Option<ButtonMapping>,
}

impl AppMapping {
    /// The button mapping for modifier `m`, if there is one.
    pub open spec fn button_spec(self, m: Modifier) -> Option<ButtonMapping> {
        match m {
            Modifier::Unmodified => self.unmodified,
            Modifier::Shift => self.shift,
            Modifier::Alt => self.alt,
            Modifier::Ctrl => self.ctrl,
        }
    }

    /// The button mapping for modifier `m`, if there is one.
    pub fn button(&self, m: Modifier) -> (r: Option<&ButtonMapping>)
        ensures
            r.is_some() == self.button_spec(m).is_some(),
            r.is_some() ==> *r.unwrap() == self.button_spec(m).unwrap(),
    {
        match m {
            Modifier::Unmodified => self.unmodified.as_ref(),
            Modifier::Shift => self.shift.as_ref(),
            Modifier::Alt => self.alt.as_ref(),
            Modifier::Ctrl => self.ctrl.as_ref(),
        }
    }
}

/// The non-empty action list of gesture `a` under modifier `m` in `app`.
pub open spec fn actions_in(app: Option<AppMapping>, m: Modifier, a: Action) -> Option<Seq<Operation>> {
    match app {
        Some(am) => match am.button_spec(m) {
            Some(b) => if b.actions(a).len() > 0 { Some(b.actions(a)) } else { None },
            None => None,
        },
        None => None,
    }
}

/// The action list for `m` and `a`: from the active application, else from the global one.
pub open spec fn resolve_actions(
    active: Option<AppMapping>,
    global: Option<AppMapping>,
    m: Modifier,
    a: Action,
) -> Option<Seq<Operation>> {
    match actions_in(active, m, a) {
        Some(l) => Some(l),
        None => actions_in(global, m, a),
    }
}

/// The ratchet mode of modifier `m` in `app`: the button mapping's override,
/// else the application's default; nothing where `m` has no button mapping.
pub open spec fn mode_in(app: Option<AppMapping>, m: Modifier) -> Option<RatchetMode> {
    match app {
        Some(am) => match am.button_spec(m) {
            Some(b) => match b.mode {
                Some(md) => Some(md),
                None => Some(am.mode),
            },
            None => None,
        },
        None => None,
    }
}

/// The ratchet mode for `m`: from the active application, else the global
/// one, else `Ratcheted`.
pub open spec fn resolve_mode(active: Option<AppMapping>, global: Option<AppMapping>, m: Modifier) -> RatchetMode {
    match mode_in(active, m) {
        Some(md) => md,
        None => match mode_in(global, m) {
            Some(md) => md,
            None => RatchetMode::Ratcheted,
        },
    }
}

/// The value behind an optional reference.
pub open spec fn owned(app: Option<&AppMapping>) -> Option<AppMapping> {
    match app {
        Some(a) => Some(*a),
        None => None,
    }
}

fn actions_of_app<'a>(app: Option<&'a AppMapping>, m: Modifier, a: Action) -> (r: Option<&'a [Operation]>)
    ensures
        r.is_some() == actions_in(owned(app), m, a).is_some(),
        r.is_some() ==> r.unwrap()@ == actions_in(owned(app), m, a).unwrap(),
{
    match app {
        Some(am) => match am.button(m) {
            Some(b) => ConfigFile::get_actions_from_mapping(b, a),
            None => None,
        },
        None => None,
    }
}

fn mode_of_app(app: Option<&AppMapping>, m: Modifier) -> (r: Option<RatchetMode>)
    ensures
        r == mode_in(owned(app), m),
{
    match app {
        Some(am) => match am.button(m) {
            Some(b) => match b.mode {
                Some(md) => Some(md),
                None => Some(am.mode),
            },
            None => None,
        },
        None => None,
    }
}

/// One application's entry of the configuration.
#[derive(Debug)]
pub struct AppEntry {
    pub name: String,
    pub mapping: AppMapping,
}

/// The whole configuration: application identifiers, `global` among them,
/// each with its mapping.
#[derive(Debug)]
pub struct Config {
    pub apps: Vec<AppEntry>,
}

/// The identifier of the fallback entry.
pub open spec fn global_name() -> Seq<char> {
    seq!['g', 'l', 'o', 'b', 'a', 'l']
}

impl Config {
    /// No identifier occurs twice.
    pub open spec fn wf(self) -> bool {
        forall|i: int, j: int|
            0 <= i < self.apps@.len() && 0 <= j < self.apps@.len() && i != j
                ==> #[trigger] self.apps@[i].name@ != #[trigger] self.apps@[j].name@
    }

    /// Whether `name` is an identifier of the configuration.
    pub open spec fn has(self, name: Seq<char>) -> bool {
        exists|i: int| 0 <= i < self.apps@.len() && #[trigger] self.apps@[i].name@ == name
    }

    /// The position of the entry with identifier `name`.
    pub open spec fn index_of(self, name: Seq<char>) -> Option<int> {
        if self.has(name) {
            Some(choose|i: int| 0 <= i < self.apps@.len() && #[trigger] self.apps@[i].name@ == name)
        } else {
            None
        }
    }

    /// The mapping of identifier `name`.
    pub open spec fn get(self, name: Seq<char>) -> Option<AppMapping> {
        match self.index_of(name) {
            Some(i) => Some(self.apps@[i].mapping),
            None => None,
        }
    }

    /// An empty configuration.
    pub fn new() -> (r: Config)
        ensures
            r.wf(),
            r.apps@.len() == 0,
    {
        Config { apps: Vec::new() }
    }

    /// The position of the entry with identifier `name`.
    pub fn find(&self, name: &String) -> (r: Option<usize>)
        requires
            self.wf(),
        ensures
            r.is_some() == self.index_of(name@).is_some(),
            r.is_some() ==> r.unwrap() as int == self.index_of(name@).unwrap(),
            r.is_some() ==> r.unwrap() < self.apps@.len(),
    {
        let mut i: usize = 0;
        while i < self.apps.len()
            invariant
                self.wf(),
                i <= self.apps@.len(),
                forall|j: int| 0 <= j < i ==> #[trigger] self.apps@[j].name@ != name@,
            decreases self.apps@.len() - i,
        {
            if self.apps[i].name == *name {
                assert(self.apps@[i as int].name@ == name@);
                assert(self.has(name@));
                let ghost k = self.index_of(name@).unwrap();
                assert(self.apps@[k].name@ == name@);
                assert(k == i as int);
                return Some(i);
            }
            i = i + 1;
        }
        None
    }

    /// The position of the first entry whose identifier's final path segment
    /// is `seg`.
    pub fn find_by_segment(&self, seg: &String) -> (r: Option<usize>)
        ensures
            r.is_some() == first_with_segment(self.apps@, seg@).is_some(),
            r.is_some() ==> r.unwrap() as int == first_with_segment(self.apps@, seg@).unwrap(),
            r.is_some() ==> r.unwrap() < self.apps@.len(),
    {
        let mut i: usize = 0;
        while i < self.apps.len()
            invariant
                i <= self.apps@.len(),
                forall|j: int| 0 <= j < i ==> after_last(#[trigger] self.apps@[j].name@, '/') != seg@,
            decreases self.apps@.len() - i,
        {
            let tail = after_last_of(self.apps[i].name.as_str(), '/');
            if tail == *seg {
                proof {
                    lemma_first_with_segment_skip(self.apps@, seg@, i as int);
                    assert(self.apps@.subrange(i as int, self.apps@.len() as int)[0] == self.apps@[i as int]);
                }
                return Some(i);
            }
            i = i + 1;
        }
        proof {
            lemma_first_with_segment_skip(self.apps@, seg@, self.apps@.len() as int);
        }
        None
    }

    /// Sets the mapping of `name`, replacing the one it had.
    pub fn insert(&mut self, name: String, mapping: AppMapping)
        requires
            old(self).wf(),
        ensures
            final(self).wf(),
            final(self).get(name@) == Some(mapping),
            forall|n: Seq<char>| n != name@ ==> final(self).get(n) == old(self).get(n),
    {
        let ghost key = name@;
        let found = self.find(&name);
        match found {
            Some(i) => {
                self.apps.remove(i);
                self.apps.insert(i, AppEntry { name, mapping });
                assert forall|n: Seq<char>| n != key implies #[trigger] self.get(n) == old(self).get(n) by {
                    if old(self).has(n) {
                        let j = old(self).index_of(n).unwrap();
                        assert(j != i);
                        assert(self.apps@[j].name@ == n);
                        assert(self.index_of(n).unwrap() == j);
                    }
                    if self.has(n) {
                        let j = self.index_of(n).unwrap();
                        assert(old(self).apps@[j].name@ == n);
                    }
                }
                assert(self.apps@[i as int].name@ == key);
            },
            None => {
                self.apps.push(AppEntry { name, mapping });
                let ghost last = self.apps@.len() - 1;
                assert(self.apps@[last].name@ == key);
                assert forall|n: Seq<char>| n != key implies #[trigger] self.get(n) == old(self).get(n) by {
                    if old(self).has(n) {
                        let j = old(self).index_of(n).unwrap();
                        assert(self.apps@[j].name@ == n);
                        assert(self.index_of(n).unwrap() == j);
                    }
                    if self.has(n) {
                        let j = self.index_of(n).unwrap();
                        assert(old(self).apps@[j].name@ == n);
                    }
                }
            },
        }
    }
}

/// The position of the first entry in `apps` whose identifier's final path
/// segment is `seg`.
pub open spec fn first_with_segment(apps: Seq<AppEntry>, seg: Seq<char>) -> Option<int>
    decreases apps.len(),
{
    if apps.len() == 0 {
        None
    } else if after_last(apps[0].name@, '/') == seg {
        Some(0)
    } else {
        match first_with_segment(apps.drop_first(), seg) {
            Some(i) => Some(i + 1),
            None => None,
        }
    }
}

/// The mapping that identifier `app` selects in `c`: its own entry, else the
/// first entry whose identifier has the same final path segment.
pub open spec fn pick_app(c: Config, app: Seq<char>) -> Option<AppMapping> {
    match c.get(app) {
        Some(m) => Some(m),
        None => match first_with_segment(c.apps@, after_last(app, '/')) {
            Some(i) => Some(c.apps@[i].mapping),
            None => None,
        },
    }
}

/// The first entry with a given final path segment lies within the list.
pub proof fn lemma_first_with_segment_in_range(apps: Seq<AppEntry>, seg: Seq<char>)
    ensures
        first_with_segment(apps, seg) matches Some(i) ==> 0 <= i < apps.len()
            && after_last(apps[i].name@, '/') == seg,
    decreases apps.len(),
{
    if apps.len() > 0 {
        lemma_first_with_segment_in_range(apps.drop_first(), seg);
    }
}

proof fn lemma_first_with_segment_skip(apps: Seq<AppEntry>, seg: Seq<char>, i: int)
    requires
        0 <= i <= apps.len(),
        forall|j: int| 0 <= j < i ==> after_last(#[trigger] apps[j].name@, '/') != seg,
    ensures
        first_with_segment(apps, seg) == match first_with_segment(apps.subrange(i, apps.len() as int), seg) {
            Some(k) => Some(k + i),
            None => None::<int>,
        },
    decreases i,
{
    if i > 0 {
        let rest = apps.drop_first();
        assert(after_last(apps[0].name@, '/') != seg);
        assert forall|j: int| 0 <= j < i - 1 implies after_last(#[trigger] rest[j].name@, '/') != seg by {
            assert(rest[j] == apps[j + 1]);
        }
        lemma_first_with_segment_skip(rest, seg, i - 1);
        assert(rest.subrange(i - 1, rest.len() as int) =~= apps.subrange(i, apps.len() as int));
        match first_with_segment(apps.subrange(i, apps.len() as int), seg) {
            Some(k) => {},
            None => {},
        }
    } else {
        assert(apps.subrange(0, apps.len() as int) =~= apps);
        match first_with_segment(apps, seg) {
            Some(k) => {},
            None => {},
        }
    }
}

/// The view of the active application that a configuration gives.
pub open spec fn active_view(config: Option<Config>, app: Option<Seq<char>>) -> Option<AppMapping> {
    match (config, app) {
        (Some(c), Some(a)) => pick_app(c, a),
        _ => None,
    }
}

/// The view of the `global` entry that a configuration gives.
pub open spec fn global_view(config: Option<Config>) -> Option<AppMapping> {
    match config {
        Some(c) => c.get(global_name()),
        None => None,
    }
}

/// An identifier that is a key of the configuration selects its own entry;
/// one that is not selects the first entry whose identifier ends in the same
/// final path segment, and no entry where none does.
pub proof fn lemma_app_matching(c: Config, app: Seq<char>)
    ensures
        c.has(app) ==> active_view(Some(c), Some(app)) == c.get(app),
        !c.has(app) ==> match first_with_segment(c.apps@, after_last(app, '/')) {
            Some(i) => {
                &&& 0 <= i < c.apps@.len()
                &&& after_last(c.apps@[i].name@, '/') == after_last(app, '/')
                &&& active_view(Some(c), Some(app)) == Some(c.apps@[i].mapping)
            },
            None => active_view(Some(c), Some(app)).is_none(),
        },
{
    lemma_first_with_segment_in_range(c.apps@, after_last(app, '/'));
}

/// Two identifiers with the same final path segment, one of them a key and
/// the other not: selecting the other reaches an entry with that segment,
/// the key's own where it comes first.
pub proof fn lemma_same_segment_selects_key(c: Config, key: Seq<char>, app: Seq<char>)
    requires
        c.wf(),
        c.has(key),
        !c.has(app),
        after_last(key, '/') == after_last(app, '/'),
        forall|j: int|
            0 <= j < c.apps@.len() && c.apps@[j].name@ != key ==> after_last(#[trigger] c.apps@[j].name@, '/')
                != after_last(app, '/'),
    ensures
        active_view(Some(c), Some(app)) == c.get(key),
{
    let k = c.index_of(key).unwrap();
    assert(c.apps@[k].name@ == key);
    lemma_first_with_segment_skip(c.apps@, after_last(app, '/'), k);
    assert(c.apps@.subrange(k, c.apps@.len() as int)[0] == c.apps@[k]);
}

/// Where the selected application has no button mapping for a modifier, its
/// action lists come from the global entry.
pub proof fn lemma_global_fallback(active: AppMapping, global: Option<AppMapping>, m: Modifier, a: Action)
    requires
        active.button_spec(m).is_none(),
    ensures
        resolve_actions(Some(active), global, m, a) == actions_in(global, m, a),
        resolve_mode(Some(active), global, m) == match mode_in(global, m) {
            Some(md) => md,
            None => RatchetMode::Ratcheted,
        },
{
}

/// A button mapping with no mode of its own takes its application's mode;
/// with no button mapping anywhere, the mode is `Ratcheted`.
pub proof fn lemma_ratchet_fallback(active: Option<AppMapping>, global: Option<AppMapping>, m: Modifier)
    ensures
        active.is_some() && active.unwrap().button_spec(m).is_some() && active.unwrap().button_spec(m).unwrap().mode.is_none()
            ==> resolve_mode(active, global, m) == active.unwrap().mode,
        mode_in(active, m).is_none() && mode_in(global, m).is_none() ==> resolve_mode(active, global, m)
            == RatchetMode::Ratcheted,
{
}

/// Whether `s` ends with `suffix`.
pub open spec fn ends_with(s: Seq<char>, suffix: Seq<char>) -> bool {
    s.len() >= suffix.len() && s.subrange(s.len() - suffix.len(), s.len() as int) == suffix
}

/// The name of the configuration file within its directory, with the separator.
pub open spec fn config_file_suffix() -> Seq<char> {
    seq!['/', 'c', 'o', 'n', 'f', 'i', 'g', '.', 'y', 'a', 'm', 'l']
}

/// The configuration file within configuration directory `dir`.
pub fn config_path(dir: Option<String>) -> (r: Option<String>)
    ensures
        r.is_some() == dir.is_some(),
        r.is_some() ==> r.unwrap()@ == dir.unwrap()@ + config_file_suffix(),
        r.is_some() ==> ends_with(r.unwrap()@, config_file_suffix()),
{
    match dir {
        Some(d) => {
            let ghost dv = d@;
            let p = d.concat("/config.yaml");
            proof {
                reveal_strlit("/config.yaml");
                assert("/config.yaml"@ =~= config_file_suffix());
                assert(p@.subrange(p@.len() - 12, p@.len() as int) =~= config_file_suffix());
            }
            Some(p)
        },
        None => None,
    }
}

/// Relies on directories::ProjectDirs::from and ProjectDirs::config_dir: the
/// per-user configuration directory of a program, where the platform has one.
#[verifier::external_body]
fn project_config_dir(qualifier: &str, organization: &str, application: &str) -> (r: Option<String>) {
    match directories::ProjectDirs::from(qualifier, organization, application) {
        Some(dirs) => Some(dirs.config_dir().to_string_lossy().into_owned()),
        None => None,
    }
}

/// The live configuration, where it comes from, and the views resolved from
/// it for the focused application.
pub struct ConfigFile {
    config: Option<Config>,
    path: Option<String>,
    mtime: u64,
    last_mtime_check: Option<u64>,
    active_app: Option<String>,
    global_conf: Option<usize>,
    active_conf: Option<usize>,
}

impl ConfigFile {
    /// The configuration that was last loaded, if the last load succeeded.
    pub closed spec fn loaded(&self) -> Option<Config> {
        self.config
    }

    /// The file that the configuration is read from.
    pub closed spec fn path_spec(&self) -> Option<Seq<char>> {
        match self.path {
            Some(p) => Some(p@),
            None => None,
        }
    }

    /// The modification time seen last.
    pub closed spec fn mtime_spec(&self) -> u64 {
        self.mtime
    }

    /// The time of the last look at the file, in milliseconds.
    pub closed spec fn last_check_spec(&self) -> Option<u64> {
        self.last_mtime_check
    }

    /// The identifier of the focused application.
    pub closed spec fn active_app_spec(&self) -> Option<Seq<char>> {
        match self.active_app {
            Some(a) => Some(a@),
            None => None,
        }
    }

    /// The mapping of the focused application.
    pub closed spec fn active_mapping(&self) -> Option<AppMapping> {
        match (self.active_conf, self.config) {
            (Some(i), Some(c)) => Some(c.apps@[i as int].mapping),
            _ => None,
        }
    }

    /// The mapping of the `global` entry.
    pub closed spec fn global_mapping(&self) -> Option<AppMapping> {
        match (self.global_conf, self.config) {
            (Some(i), Some(c)) => Some(c.apps@[i as int].mapping),
            _ => None,
        }
    }

    /// The cached views agree with the configuration and the focused application.
    pub closed spec fn wf(&self) -> bool {
        &&& self.active_mapping() == active_view(self.loaded(), self.active_app_spec())
        &&& self.global_mapping() == global_view(self.loaded())
        &&& match self.config {
            Some(c) => {
                &&& c.wf()
                &&& (self.active_conf.is_some() ==> self.active_conf.unwrap() < c.apps@.len())
                &&& (self.global_conf.is_some() ==> self.global_conf.unwrap() < c.apps@.len())
            },
            None => self.active_conf.is_none() && self.global_conf.is_none(),
        }
    }

    /// The global view agrees with the configuration and the positions held
    /// are in range: what resolving the focused application's view needs.
    closed spec fn ready(&self) -> bool {
        &&& self.global_mapping() == global_view(self.loaded())
        &&& match self.config {
            Some(c) => {
                &&& c.wf()
                &&& (self.global_conf.is_some() ==> self.global_conf.unwrap() < c.apps@.len())
                &&& (self.active_conf.is_some() ==> self.active_conf.unwrap() < c.apps@.len())
                &&& (self.active_app.is_none() ==> self.active_conf.is_none())
            },
            None => self.active_conf.is_none() && self.global_conf.is_none(),
        }
    }

    /// A resolver with nothing loaded yet, reading from `path`; `mtime` is the
    /// modification time taken as already seen.
    pub fn with_path(path: Option<String>, mtime: u64) -> (r: ConfigFile)
        ensures
            r.wf(),
            r.loaded().is_none(),
            r.path_spec() == (match path { Some(p) => Some(p@), None => None::<Seq<char>> }),
            r.mtime_spec() == mtime,
            r.last_check_spec().is_none(),
            r.active_app_spec().is_none(),
            r.active_mapping().is_none(),
            r.global_mapping().is_none(),
    {
        ConfigFile {
            config: None,
            path,
            mtime,
            last_mtime_check: None,
            active_app: None,
            global_conf: None,
            active_conf: None,
        }
    }

    /// A resolver reading `config.yaml` in this program's configuration
    /// directory, with nothing loaded yet; `mtime` is taken as already seen.
    pub fn new(mtime: u64) -> (r: ConfigFile)
        ensures
            r.wf(),
            r.loaded().is_none(),
            r.path_spec().is_some() ==> ends_with(r.path_spec().unwrap(), config_file_suffix()),
            r.mtime_spec() == mtime,
            r.last_check_spec().is_none(),
            r.active_app_spec().is_none(),
            r.active_mapping().is_none(),
            r.global_mapping().is_none(),
    {
        Self::with_path(config_path(project_config_dir("org", "prefiks", "crown-controller")), mtime)
    }

    /// The file that the configuration is read from.
    pub fn path(&self) -> (r: Option<&String>)
        ensures
            r.is_some() == self.path_spec().is_some(),
            r.is_some() ==> r.unwrap()@ == self.path_spec().unwrap(),
    {
        self.path.as_ref()
    }

    /// Whether the file is due for a look at its modification time at time
    /// `now` (milliseconds): there is a file, and no look was made in the
    /// second before.
    pub fn check_due(&self, now: u64) -> (r: bool)
        ensures
            r == (self.path_spec().is_some() && match self.last_check_spec() {
                None => true,
                Some(t) => now as int > t as int + 1000,
            }),
    {
        match self.path {
            None => false,
            Some(_) => match self.last_mtime_check {
                None => true,
                Some(t) => now > t && now - t > 1000,
            },
        }
    }

    /// Records a look at the file at time `now` that saw modification time
    /// `mtime`; returns whether the file is to be read again.
    pub fn observe_mtime(&mut self, now: u64, mtime: u64) -> (changed: bool)
        requires
            old(self).wf(),
        ensures
            final(self).wf(),
            changed == (mtime != old(self).mtime_spec()),
            final(self).mtime_spec() == mtime,
            final(self).last_check_spec() == Some(now),
            final(self).loaded() == old(self).loaded(),
            final(self).path_spec() == old(self).path_spec(),
            final(self).active_app_spec() == old(self).active_app_spec(),
            final(self).active_mapping() == old(self).active_mapping(),
            final(self).global_mapping() == old(self).global_mapping(),
    {
        let changed = mtime != self.mtime;
        self.mtime = mtime;
        self.last_mtime_check = Some(now);
        changed
    }

    /// Replaces the live configuration by the outcome of reading the file:
    /// a parsed configuration, or `None` where it could not be parsed, which
    /// leaves no configuration at all.
    pub fn load_result(&mut self, parsed: Option<Config>)
        requires
            old(self).wf(),
            parsed.is_some() ==> parsed.unwrap().wf(),
        ensures
            final(self).wf(),
            final(self).loaded() == parsed,
            final(self).active_mapping() == active_view(parsed, old(self).active_app_spec()),
            final(self).global_mapping() == global_view(parsed),
            final(self).mtime_spec() == old(self).mtime_spec(),
            final(self).last_check_spec() == old(self).last_check_spec(),
            final(self).path_spec() == old(self).path_spec(),
            final(self).active_app_spec() == old(self).active_app_spec(),
    {
        match parsed {
            Some(c) => {
                let global = String::from_str("global");
                proof {
                    reveal_strlit("global");
                    assert(global@ =~= global_name());
                }
                self.global_conf = c.find(&global);
                self.active_conf = None;
                self.config = Some(c);
                self.resolve_active();
            },
            None => {
                self.config = None;
                self.global_conf = None;
                self.active_conf = None;
            },
        }
    }

    fn resolve_active(&mut self)
        requires
            old(self).ready(),
        ensures
            final(self).wf(),
            final(self).active_mapping() == active_view(old(self).loaded(), old(self).active_app_spec()),
            final(self).loaded() == old(self).loaded(),
            final(self).active_app_spec() == old(self).active_app_spec(),
            final(self).global_mapping() == old(self).global_mapping(),
            final(self).mtime_spec() == old(self).mtime_spec(),
            final(self).last_check_spec() == old(self).last_check_spec(),
            final(self).path_spec() == old(self).path_spec(),
    {
        match (&self.config, &self.active_app) {
            (Some(conf), Some(app)) => {
                let found = conf.find(app);
                let idx = match found {
                    Some(i) => Some(i),
                    None => {
                        let base = after_last_of(app.as_str(), '/');
                        conf.find_by_segment(&base)
                    },
                };
                self.active_conf = idx;
            },
            _ => {},
        }
    }

    /// Resolves the view of the focused application again from the live
    /// configuration: its own entry, else the first entry with the same
    /// final path segment; without a configuration or a focused application
    /// the views stay as they are.
    pub fn update_app_config(&mut self)
        requires
            old(self).wf(),
        ensures
            final(self).wf(),
            old(self).loaded().is_none() || old(self).active_app_spec().is_none() ==> final(self).active_mapping()
                == old(self).active_mapping(),
            final(self).active_mapping() == active_view(old(self).loaded(), old(self).active_app_spec()),
            final(self).loaded() == old(self).loaded(),
            final(self).active_app_spec() == old(self).active_app_spec(),
            final(self).global_mapping() == old(self).global_mapping(),
            final(self).mtime_spec() == old(self).mtime_spec(),
            final(self).last_check_spec() == old(self).last_check_spec(),
            final(self).path_spec() == old(self).path_spec(),
    {
        self.resolve_active();
    }

    /// The cached views of a well-formed resolver are those that its live
    /// configuration and focused application give.
    pub proof fn lemma_views_agree(&self)
        requires
            self.wf(),
        ensures
            self.active_mapping() == active_view(self.loaded(), self.active_app_spec()),
            self.global_mapping() == global_view(self.loaded()),
    {
    }

    /// Makes `app` the focused application and resolves its view.
    pub fn select_app(&mut self, app: &str)
        requires
            old(self).wf(),
        ensures
            final(self).wf(),
            final(self).active_app_spec() == Some(app@),
            final(self).active_mapping() == active_view(old(self).loaded(), Some(app@)),
            final(self).loaded() == old(self).loaded(),
            final(self).global_mapping() == old(self).global_mapping(),
            final(self).mtime_spec() == old(self).mtime_spec(),
            final(self).last_check_spec() == old(self).last_check_spec(),
            final(self).path_spec() == old(self).path_spec(),
    {
        self.active_app = Some(app.to_owned());
        self.active_conf = None;
        self.resolve_active();
    }

    /// The non-empty action list of gesture `action` in `mapping`.
    pub fn get_actions_from_mapping(mapping: &ButtonMapping, action: Action) -> (r: Option<&[Operation]>)
        ensures
            r.is_some() <==> mapping.actions(action).len() > 0,
            r.is_some() ==> r.unwrap()@ == mapping.actions(action),
    {
        let actions = match action {
            Action::Touch => mapping.touch.as_slice(),
            Action::Release => mapping.release.as_slice(),
            Action::Left => mapping.left.as_slice(),
            Action::LeftPressed => mapping.left_pressed.as_slice(),
            Action::Right => mapping.right.as_slice(),
            Action::RightPressed => mapping.right_pressed.as_slice(),
            Action::Click => mapping.click.as_slice(),
        };
        if actions.len() == 0 {
            None
        } else {
            Some(actions)
        }
    }

    /// The action list of gesture `action` under modifier `modifiers`: the
    /// focused application's, else the global one, else none.
    pub fn get_actions_for_modifiers(&self, modifiers: Modifier, action: Action) -> (r: Option<&[Operation]>)
        requires
            self.wf(),
        ensures
            r.is_some() == resolve_actions(self.active_mapping(), self.global_mapping(), modifiers, action).is_some(),
            r.is_some() ==> r.unwrap()@ == resolve_actions(
                self.active_mapping(),
                self.global_mapping(),
                modifiers,
                action,
            ).unwrap(),
    {
        let active = self.active_ref();
        let global = self.global_ref();
        match actions_of_app(active, modifiers, action) {
            Some(l) => Some(l),
            None => actions_of_app(global, modifiers, action),
        }
    }

    /// The ratchet mode under modifier `modifiers`: the focused application's,
    /// else the global one, else `Ratcheted`.
    pub fn ratchet_mode_for_modifier(&self, modifiers: Modifier) -> (r: RatchetMode)
        requires
            self.wf(),
        ensures
            r == resolve_mode(self.active_mapping(), self.global_mapping(), modifiers),
    {
        match mode_of_app(self.active_ref(), modifiers) {
            Some(md) => md,
            None => match mode_of_app(self.global_ref(), modifiers) {
                Some(md) => md,
                None => RatchetMode::Ratcheted,
            },
        }
    }

    fn active_ref(&self) -> (r: Option<&AppMapping>)
        requires
            self.wf(),
        ensures
            owned(r) == self.active_mapping(),
    {
        match (self.active_conf, &self.config) {
            (Some(i), Some(c)) => Some(&c.apps[i].mapping),
            _ => None,
        }
    }

    fn global_ref(&self) -> (r: Option<&AppMapping>)
        requires
            self.wf(),
        ensures
            owned(r) == self.global_mapping(),
    {
        match (self.global_conf, &self.config) {
            (Some(i), Some(c)) => Some(&c.apps[i].mapping),
            _ => None,
        }
    }
}

} // verus!
