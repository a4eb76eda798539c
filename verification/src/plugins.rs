//! The plugin manager's bookkeeping: where plugins are looked for, the state
//! of each plugin found, and the switches that enable them. Looking into the
//! directories is left to the caller, which registers what it finds.

use vstd::prelude::*;
use crate::text::{chars_of, string_from, split_on, split_chars, eq_chars};
use crate::rewind::{path_join, join_path, texts};

verus! {

/// What a plugin says about itself.
#[derive(Debug, Clone)]
pub struct PluginMetadata {
    pub name: String,
    pub version: String,
    pub description: Option<String>,
}

/// What the manager knows of a plugin.
#[derive(Debug)]
pub struct PluginState {
    pub metadata: PluginMetadata,
    /// The plugin's directory
    pub path: String,
    pub enabled: bool,
    pub loaded: bool,
    pub initialized: bool,
    pub activated: bool,
    pub error: Option<String>,
    /// How long loading took, in milliseconds
    pub load_time: Option<u64>,
    pub dependencies: Vec<String>,
    pub dependents: Vec<String>,
}

/// Two states hold the same values.
pub open spec fn same_state(a: PluginState, b: PluginState) -> bool {
    &&& a.metadata.name@ == b.metadata.name@
    &&& a.metadata.version@ == b.metadata.version@
    &&& crate::ask::opt_chars(a.metadata.description) == crate::ask::opt_chars(b.metadata.description)
    &&& a.path@ == b.path@
    &&& a.enabled == b.enabled
    &&& a.loaded == b.loaded
    &&& a.initialized == b.initialized
    &&& a.activated == b.activated
    &&& crate::ask::opt_chars(a.error) == crate::ask::opt_chars(b.error)
    &&& a.load_time == b.load_time
    &&& texts(a.dependencies@) == texts(b.dependencies@)
    &&& texts(a.dependents@) == texts(b.dependents@)
}

fn copy_opt(o: &Option<String>) -> (r: Option<String>)
    ensures
        crate::ask::opt_chars(r) == crate::ask::opt_chars(*o),
{
    match o {
        Some(s) => Some(s.clone()),
        None => None,
    }
}

fn copy_texts(v: &Vec<String>) -> (r: Vec<String>)
    ensures
        texts(r@) == texts(v@),
{
    let mut r: Vec<String> = Vec::new();
    let mut i: usize = 0;
    while i < v.len()
        invariant
            i <= v@.len(),
            texts(r@) == texts(v@).take(i as int),
        decreases v@.len() - i,
    {
        let c = v[i].clone();
        let ghost before = r@;
        r.push(c);
        proof {
            assert(r@ =~= before.push(c));
            assert(texts(r@) =~= texts(before).push(c@));
            assert(texts(v@).take(i + 1) =~= texts(v@).take(i as int).push(v@[i as int]@));
        }
        i = i + 1;
    }
    proof {
        assert(texts(v@).take(v@.len() as int) =~= texts(v@));
    }
    r
}

impl PluginState {
    /// A copy of the state.
    pub fn copy(&self) -> (r: Self)
        ensures
            same_state(r, *self),
    {
        PluginState {
            metadata: PluginMetadata {
                name: self.metadata.name.clone(),
                version: self.metadata.version.clone(),
                description: copy_opt(&self.metadata.description),
            },
            path: self.path.clone(),
            enabled: self.enabled,
            loaded: self.loaded,
            initialized: self.initialized,
            activated: self.activated,
            error: copy_opt(&self.error),
            load_time: self.load_time,
            dependencies: copy_texts(&self.dependencies),
            dependents: copy_texts(&self.dependents),
        }
    }
}

/// The components of a path as `Path::components` yields them on Unix:
/// whether it starts at the root, whether it starts with `.`, and its other
/// components (empty ones and later `.` dropped).
pub open spec fn path_components(p: Seq<char>) -> (bool, bool, Seq<Seq<char>>) {
    let rooted = p.len() > 0 && p[0] == '/';
    let cur = !rooted && p.len() > 0 && p[0] == '.' && (p.len() == 1 || p[1] == '/');
    (rooted, cur, named_parts(split_on(p, '/'), split_on(p, '/').len() as nat))
}

/// The pieces among the first `n` that name something (not empty, not `.`).
pub open spec fn named_parts(parts: Seq<Seq<char>>, n: nat) -> Seq<Seq<char>>
    decreases n,
{
    if n == 0 || n > parts.len() {
        seq![]
    } else {
        let r = named_parts(parts, (n - 1) as nat);
        if parts[n - 1].len() == 0 || parts[n - 1] == "."@ {
            r
        } else {
            r.push(parts[n - 1])
        }
    }
}

/// Two paths are equal as `Path` compares them: component by component.
pub open spec fn same_path(a: Seq<char>, b: Seq<char>) -> bool {
    path_components(a) == path_components(b)
}

fn components_of(p: &str) -> (r: (bool, bool, Vec<Vec<char>>))
    ensures
        (r.0, r.1, r.2@.map_values(|w: Vec<char>| w@)) == path_components(p@),
{
    let v = chars_of(p);
    let rooted = v.len() > 0 && v[0] == '/';
    let cur = !rooted && v.len() > 0 && v[0] == '.' && (v.len() == 1 || v[1] == '/');
    let parts = split_chars(v.as_slice(), '/');
    let ghost sp = split_on(p@, '/');
    let dot = chars_of(".");
    let mut out: Vec<Vec<char>> = Vec::new();
    let mut i: usize = 0;
    while i < parts.len()
        invariant
            i <= parts@.len() == sp.len(),
            sp == split_on(p@, '/'),
            forall|j: int| 0 <= j < parts@.len() ==> (#[trigger] parts@[j])@ == sp[j],
            dot@ == "."@,
            out@.map_values(|w: Vec<char>| w@) == named_parts(sp, i as nat),
        decreases parts@.len() - i,
    {
        let c = &parts[i];
        if c.len() > 0 && !eq_chars(c.as_slice(), dot.as_slice()) {
            let ghost before = out@;
            out.push(c.clone());
            proof {
                assert(out@.map_values(|w: Vec<char>| w@) =~= before.map_values(|w: Vec<char>| w@).push(sp[i as int]));
            }
        }
        i = i + 1;
    }
    (rooted, cur, out)
}

fn same_path_exec(a: &str, b: &str) -> (r: bool)
    ensures
        r == same_path(a@, b@),
{
    let ca = components_of(a);
    let cb = components_of(b);
    proof {
        assert(path_components(a@).2.len() == ca.2@.len());
        assert(path_components(b@).2.len() == cb.2@.len());
    }
    if ca.0 != cb.0 || ca.1 != cb.1 || ca.2.len() != cb.2.len() {
        return false;
    }
    let ghost sa = ca.2@.map_values(|w: Vec<char>| w@);
    let ghost sb = cb.2@.map_values(|w: Vec<char>| w@);
    let mut i: usize = 0;
    while i < ca.2.len()
        invariant
            i <= ca.2@.len() == cb.2@.len(),
            sa == ca.2@.map_values(|w: Vec<char>| w@),
            sb == cb.2@.map_values(|w: Vec<char>| w@),
            (ca.0, ca.1, sa) == path_components(a@),
            (cb.0, cb.1, sb) == path_components(b@),
            forall|j: int| 0 <= j < i ==> sa[j] == sb[j],
        decreases ca.2@.len() - i,
    {
        if !eq_chars(ca.2[i].as_slice(), cb.2[i].as_slice()) {
            proof {
                assert(sa[i as int] != sb[i as int]);
            }
            return false;
        }
        i = i + 1;
    }
    proof {
        assert(sa =~= sb);
    }
    true
}

/// Whether some directory of the list is the same path as `dir`.
pub open spec fn has_dir(dirs: Seq<Seq<char>>, dir: Seq<char>) -> bool {
    exists|i: int| 0 <= i < dirs.len() && same_path(#[trigger] dirs[i], dir)
}

/// The state held for the plugin named `name` (its last entry).
pub open spec fn state_for(states: Seq<PluginState>, name: Seq<char>) -> Option<PluginState>
    decreases states.len(),
{
    if states.len() == 0 {
        None
    } else if states.last().metadata.name@ == name {
        Some(states.last())
    } else {
        state_for(states.drop_last(), name)
    }
}

/// The number of states for which `f` holds.
pub open spec fn count_where(states: Seq<PluginState>, f: spec_fn(PluginState) -> bool) -> nat
    decreases states.len(),
{
    if states.len() == 0 {
        0
    } else {
        count_where(states.drop_last(), f) + if f(states.last()) {
            1nat
        } else {
            0nat
        }
    }
}

/// The number of enabled plugins.
pub open spec fn enabled_total(states: Seq<PluginState>) -> nat {
    count_where(states, |s: PluginState| s.enabled)
}

/// One for an enabled plugin, none otherwise.
pub open spec fn enabled_one(s: PluginState) -> nat {
    if s.enabled {
        1
    } else {
        0
    }
}

/// No plugin name occurs twice.
pub open spec fn names_unique(states: Seq<PluginState>) -> bool {
    forall|i: int, j: int| 0 <= i < j < states.len() ==> states[i].metadata.name@ != states[j].metadata.name@
}

/// The plugins found, the directories searched, and the configuration directory.
pub struct PluginManager {
    plugin_states: Vec<PluginState>,
    plugin_dirs: Vec<String>,
    config_dir: String,
    aster_version: String,
}

/// The directory of the user's Aster configuration, under the home directory
/// (`~` when it is unknown).
pub open spec fn config_dir_for(home: Option<Seq<char>>) -> Seq<char> {
    path_join(match home {
        Some(h) => h,
        None => "~"@,
    }, ".aster"@)
}

impl PluginManager {
    /// The plugins found, one state per name.
    pub closed spec fn states(&self) -> Seq<PluginState> {
        self.plugin_states@
    }

    /// The directories searched, in order.
    pub closed spec fn dirs(&self) -> Seq<Seq<char>> {
        texts(self.plugin_dirs@)
    }

    /// The configuration directory.
    pub closed spec fn config(&self) -> Seq<char> {
        self.config_dir@
    }

    /// The Aster version plugins are checked against.
    pub closed spec fn version(&self) -> Seq<char> {
        self.aster_version@
    }

    /// Every plugin name occurs once.
    pub open spec fn wf(&self) -> bool {
        names_unique(self.states())
    }

    /// A manager that searches `<home>/.aster/plugins` and
    /// `<cwd>/.aster/plugins` (an unknown working directory counts as empty),
    /// with no plugin found yet.
    pub fn new(aster_version: &str, home_dir: Option<&str>, cwd: Option<&str>) -> (r: Self)
        ensures
            r.wf(),
            r.states().len() == 0,
            r.version() == aster_version@,
            r.config() == config_dir_for(match home_dir {
                Some(h) => Some(h@),
                None => None,
            }),
            r.dirs() == seq![
                path_join(r.config(), "plugins"@),
                path_join(path_join(match cwd {
                    Some(c) => c@,
                    None => Seq::empty(),
                }, ".aster"@), "plugins"@),
            ],
    {
        let home = match home_dir {
            Some(h) => String::from_str(h),
            None => String::from_str("~"),
        };
        let config_dir = join_path(home.as_str(), ".aster");
        let here = match cwd {
            Some(c) => String::from_str(c),
            None => String::new(),
        };
        let local = join_path(here.as_str(), ".aster");
        let mut dirs: Vec<String> = Vec::new();
        dirs.push(join_path(config_dir.as_str(), "plugins"));
        dirs.push(join_path(local.as_str(), "plugins"));
        let r = PluginManager {
            plugin_states: Vec::new(),
            plugin_dirs: dirs,
            config_dir,
            aster_version: String::from_str(aster_version),
        };
        proof {
            assert(r.dirs() =~= seq![dirs@[0]@, dirs@[1]@]);
        }
        r
    }

    /// Adds a directory to search, unless the same path is already listed.
    pub fn add_plugin_dir(&mut self, dir: &str)
        ensures
            final(self).states() == old(self).states(),
            final(self).config() == old(self).config(),
            final(self).version() == old(self).version(),
            final(self).dirs() == if has_dir(old(self).dirs(), dir@) {
                old(self).dirs()
            } else {
                old(self).dirs().push(dir@)
            },
    {
        let ghost ds = self.dirs();
        let mut i: usize = 0;
        while i < self.plugin_dirs.len()
            invariant
                i <= self.plugin_dirs@.len(),
                ds == texts(self.plugin_dirs@),
                forall|j: int| 0 <= j < i ==> !same_path(ds[j], dir@),
            decreases self.plugin_dirs@.len() - i,
        {
            if same_path_exec(self.plugin_dirs[i].as_str(), dir) {
                proof {
                    assert(same_path(ds[i as int], dir@));
                }
                return;
            }
            i = i + 1;
        }
        self.plugin_dirs.push(String::from_str(dir));
        proof {
            assert(self.dirs() =~= ds.push(dir@));
        }
    }

    /// The directories searched, in order.
    pub fn plugin_dirs(&self) -> (r: &Vec<String>)
        ensures
            texts(r@) == self.dirs(),
    {
        &self.plugin_dirs
    }

    fn position(&self, name: &str) -> (r: Option<usize>)
        ensures
            match r {
                Some(i) => i < self.states().len() && state_for(self.states(), name@) == Some(self.states()[i as int])
                    && self.states()[i as int].metadata.name@ == name@ && forall|j: int|
                    i < j < self.states().len() ==> (#[trigger] self.states()[j]).metadata.name@ != name@,
                None => state_for(self.states(), name@) is None,
            },
    {
        let k = chars_of(name);
        let mut i = self.plugin_states.len();
        proof {
            assert(self.plugin_states@.take(i as int) =~= self.plugin_states@);
        }
        while i > 0
            invariant
                i <= self.plugin_states@.len(),
                k@ == name@,
                state_for(self.plugin_states@.take(i as int), name@) == state_for(self.plugin_states@, name@),
                forall|j: int| i <= j < self.plugin_states@.len() ==> (#[trigger] self.plugin_states@[j]).metadata.name@ != name@,
            decreases i,
        {
            proof {
                assert(self.plugin_states@.take(i as int).drop_last() =~= self.plugin_states@.take(i - 1));
                assert(self.plugin_states@.take(i as int).last() == self.plugin_states@[i - 1]);
            }
            let c = chars_of(self.plugin_states[i - 1].metadata.name.as_str());
            if eq_chars(c.as_slice(), k.as_slice()) {
                return Some(i - 1);
            }
            i = i - 1;
        }
        None
    }

    /// Registers a plugin found in `path` with this metadata: enabled, not
    /// loaded, initialized or activated, without error or dependencies. It
    /// replaces any plugin of the same name. Returns a copy of the new state.
    pub fn register_discovered(&mut self, metadata: PluginMetadata, path: &str) -> (r: PluginState)
        ensures
            old(self).wf() ==> final(self).wf(),
            final(self).dirs() == old(self).dirs(),
            final(self).config() == old(self).config(),
            final(self).version() == old(self).version(),
            state_for(final(self).states(), metadata.name@) matches Some(s) && same_state(s, r),
            r.metadata.name@ == metadata.name@,
            r.metadata.version@ == metadata.version@,
            r.path@ == path@,
            r.enabled && !r.loaded && !r.initialized && !r.activated,
            r.error is None && r.load_time is None,
            r.dependencies@.len() == 0 && r.dependents@.len() == 0,
            forall|n: Seq<char>| n != metadata.name@ ==> state_for(final(self).states(), n) == state_for(old(self).states(), n),
    {
        let state = PluginState {
            metadata,
            path: String::from_str(path),
            enabled: true,
            loaded: false,
            initialized: false,
            activated: false,
            error: None,
            load_time: None,
            dependencies: Vec::new(),
            dependents: Vec::new(),
        };
        let copy = state.copy();
        assert(texts(copy.dependencies@).len() == copy.dependencies@.len());
        assert(texts(copy.dependents@).len() == copy.dependents@.len());
        let ghost before = self.plugin_states@;
        match self.position(state.metadata.name.as_str()) {
            Some(i) => {
                self.plugin_states.set(i, state);
                proof {
                    lemma_state_for_update(before, i as int, self.plugin_states@[i as int]);
                }
            },
            None => {
                self.plugin_states.push(state);
                proof {
                    assert(self.plugin_states@.drop_last() =~= before);
                    lemma_state_for_none(before, self.plugin_states@.last().metadata.name@);
                }
            },
        }
        copy
    }

    /// A copy of the state of the plugin named `name`.
    pub fn get_plugin_state(&self, name: &str) -> (r: Option<PluginState>)
        ensures
            match r {
                Some(s) => state_for(self.states(), name@) matches Some(t) && same_state(s, t),
                None => state_for(self.states(), name@) is None,
            },
    {
        match self.position(name) {
            Some(i) => Some(self.plugin_states[i].copy()),
            None => None,
        }
    }

    /// Copies of every plugin's state.
    pub fn get_plugin_states(&self) -> (r: Vec<PluginState>)
        ensures
            r@.len() == self.states().len(),
            forall|i: int| 0 <= i < r@.len() ==> same_state(#[trigger] r@[i], self.states()[i]),
    {
        let mut r: Vec<PluginState> = Vec::new();
        let mut i: usize = 0;
        while i < self.plugin_states.len()
            invariant
                i <= self.plugin_states@.len(),
                r@.len() == i,
                forall|j: int| 0 <= j < i ==> same_state(#[trigger] r@[j], self.plugin_states@[j]),
            decreases self.plugin_states@.len() - i,
        {
            r.push(self.plugin_states[i].copy());
            i = i + 1;
        }
        r
    }

    /// Switches the plugin named `name` on or off, leaving every other field of
    /// its state as it was; false when there is none.
    pub fn set_enabled(&mut self, name: &str, enabled: bool) -> (r: bool)
        ensures
            old(self).wf() ==> final(self).wf(),
            final(self).dirs() == old(self).dirs(),
            r == state_for(old(self).states(), name@) is Some,
            !r ==> final(self).states() == old(self).states(),
            r ==> (state_for(old(self).states(), name@) matches Some(t)
                && state_for(final(self).states(), name@) == Some((PluginState { enabled: enabled, ..t }))
                && enabled_total(final(self).states()) + enabled_one(t) == enabled_total(old(self).states()) + (if enabled {
                    1nat
                } else {
                    0nat
                })),
            forall|n: Seq<char>| n != name@ ==> state_for(final(self).states(), n) == state_for(old(self).states(), n),
    {
        match self.position(name) {
            Some(i) => {
                let ghost before = self.plugin_states@;
                let mut s = self.plugin_states.remove(i);
                s.enabled = enabled;
                self.plugin_states.insert(i, s);
                proof {
                    assert(self.plugin_states@ =~= before.update(i as int, self.plugin_states@[i as int]));
                    lemma_state_for_update(before, i as int, self.plugin_states@[i as int]);
                    lemma_enabled_total_update(before, i as int, self.plugin_states@[i as int]);
                }
                true
            },
            None => false,
        }
    }

    /// The number of loaded plugins.
    pub fn loaded_count(&self) -> (r: usize)
        ensures
            r == count_where(self.states(), |s: PluginState| s.loaded),
    {
        let mut n: usize = 0;
        let mut i: usize = 0;
        while i < self.plugin_states.len()
            invariant
                i <= self.plugin_states@.len(),
                n == count_where(self.plugin_states@.take(i as int), |s: PluginState| s.loaded),
                n <= i,
            decreases self.plugin_states@.len() - i,
        {
            proof {
                assert(self.plugin_states@.take(i + 1).drop_last() =~= self.plugin_states@.take(i as int));
            }
            if self.plugin_states[i].loaded {
                n = n + 1;
            }
            i = i + 1;
        }
        proof {
            assert(self.plugin_states@.take(i as int) =~= self.plugin_states@);
        }
        n
    }

    /// The number of enabled plugins.
    pub fn enabled_count(&self) -> (r: usize)
        ensures
            r == enabled_total(self.states()),
            r <= self.states().len(),
    {
        let mut n: usize = 0;
        let mut i: usize = 0;
        while i < self.plugin_states.len()
            invariant
                i <= self.plugin_states@.len(),
                n == count_where(self.plugin_states@.take(i as int), |s: PluginState| s.enabled),
                n <= i,
            decreases self.plugin_states@.len() - i,
        {
            proof {
                assert(self.plugin_states@.take(i + 1).drop_last() =~= self.plugin_states@.take(i as int));
            }
            if self.plugin_states[i].enabled {
                n = n + 1;
            }
            i = i + 1;
        }
        proof {
            assert(self.plugin_states@.take(i as int) =~= self.plugin_states@);
        }
        n
    }
}

/// Changing one state changes the enabled count by what that state
/// contributes before and after.
proof fn lemma_enabled_total_update(s: Seq<PluginState>, i: int, x: PluginState)
    requires
        0 <= i < s.len(),
    ensures
        enabled_total(s.update(i, x)) + enabled_one(s[i]) == enabled_total(s) + enabled_one(x),
    decreases s.len(),
{
    let t = s.update(i, x);
    if i == s.len() - 1 {
        assert(t.drop_last() =~= s.drop_last());
    } else {
        assert(t.drop_last() =~= s.drop_last().update(i, x));
        lemma_enabled_total_update(s.drop_last(), i, x);
    }
}

proof fn lemma_state_for_update(s: Seq<PluginState>, i: int, x: PluginState)
    requires
        0 <= i < s.len(),
        x.metadata.name@ == s[i].metadata.name@,
        forall|k: int| i < k < s.len() ==> (#[trigger] s[k]).metadata.name@ != x.metadata.name@,
    ensures
        names_unique(s) ==> names_unique(s.update(i, x)),
        state_for(s.update(i, x), x.metadata.name@) == Some(x),
        forall|n: Seq<char>| n != x.metadata.name@ ==> state_for(s.update(i, x), n) == state_for(s, n),
    decreases s.len(),
{
    let t = s.update(i, x);
    if names_unique(s) {
        assert forall|a: int, b: int| 0 <= a < b < t.len() implies t[a].metadata.name@ != t[b].metadata.name@ by {
            assert(s[a].metadata.name@ != s[b].metadata.name@);
        }
    }
    if i == s.len() - 1 {
        assert(t.drop_last() =~= s.drop_last());
        assert(t.last() == x);
    } else {
        assert(t.drop_last() =~= s.drop_last().update(i, x));
        assert forall|k: int| i < k < s.drop_last().len() implies (#[trigger] s.drop_last()[k]).metadata.name@
            != x.metadata.name@ by {
            assert(s.drop_last()[k] == s[k]);
        }
        lemma_state_for_update(s.drop_last(), i, x);
        assert(t.last() == s.last());
        assert(s.last().metadata.name@ != x.metadata.name@) by {
            assert(s[s.len() - 1] == s.last());
        }
    }
    assert forall|n: Seq<char>| n != x.metadata.name@ implies state_for(t, n) == state_for(s, n) by {
        if i < s.len() - 1 {
            assert(t.drop_last() =~= s.drop_last().update(i, x));
            assert(t.last() == s.last());
            assert(state_for(t.drop_last(), n) == state_for(s.drop_last(), n));
        } else {
            assert(t.drop_last() =~= s.drop_last());
            assert(t.last() == x);
            assert(s.last().metadata.name@ == x.metadata.name@);
        }
    }
}

proof fn lemma_state_for_none(s: Seq<PluginState>, name: Seq<char>)
    requires
        state_for(s, name) is None,
    ensures
        forall|i: int| 0 <= i < s.len() ==> s[i].metadata.name@ != name,
    decreases s.len(),
{
    if s.len() > 0 {
        lemma_state_for_none(s.drop_last(), name);
        assert forall|i: int| 0 <= i < s.len() implies s[i].metadata.name@ != name by {
            if i < s.len() - 1 {
                assert(s[i] == s.drop_last()[i]);
            }
        }
    }
}

} // verus!
