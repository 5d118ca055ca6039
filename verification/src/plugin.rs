//! Plugin management rules: manifests, the on-disk state store, safe
//! folder names, permission grants, and version comparison. Reading and
//! writing the files themselves happens outside this crate; these
//! functions make every decision on the values read.

use vstd::prelude::*;
use vstd::string::StrSliceExecFns;
use vstd::string::StringExecFns;

use base64::Engine;

use crate::text::lower_of;
use crate::text::to_lowercase_str;

verus! {

/// A plugin's manifest, as its `plugin.json` declares it.
#[derive(Debug)]
pub struct PluginManifest {
    pub name: String,
    /// Explicit safe folder name, preferred over the derived one.
    pub safe_name: Option<String>,
    pub version: String,
    pub author: String,
    pub description: Option<String>,
    pub repo: Option<String>,
    pub manifest_url: Option<String>,
    pub plugin_type: String,
    pub entry: String,
    pub permissions: Vec<String>,
    pub cross_plugin_access: Vec<CrossPluginAccess>,
    pub ui_slots: Option<Vec<String>>,
    pub icon: Option<String>,
    pub category: Option<String>,
    pub tags: Option<Vec<String>>,
    pub license: Option<String>,
}

/// The tracked state of one installed plugin.
#[derive(Debug)]
pub struct PluginState {
    pub name: String,
    pub enabled: bool,
    pub granted_permissions: Vec<String>,
    pub version: String,
    pub plugin_type: String,
    pub installed_at: u64,
}

/// What a listing reports for one plugin.
#[derive(Debug)]
pub struct PluginInfo {
    pub name: String,
    pub enabled: bool,
    pub manifest: PluginManifest,
    pub granted_permissions: Vec<String>,
}

/// A grant of methods on one target plugin to the declaring plugin.
#[derive(Debug)]
pub struct CrossPluginAccess {
    pub plugin: String,
    pub methods: Vec<String>,
}

/// An available update for an installed plugin.
#[derive(Debug)]
pub struct PluginUpdateInfo {
    pub name: String,
    pub current_version: String,
    pub new_version: String,
    pub repo_url: String,
}

/// Why a plugin operation was refused.
#[derive(Clone, Copy, Debug, PartialEq, Eq, Structural)]
pub enum PluginError {
    /// The plugin's manifest could not be read.
    ManifestMissing,
    /// The plugin has no entry in the state store.
    NotTracked,
}

/// The characters of `s` with every space replaced by a hyphen.
pub open spec fn spaces_to_hyphens(s: Seq<char>) -> Seq<char> {
    s.map_values(|c: char| if c == ' ' { '-' } else { c })
}

/// A display name's safe folder name: spaces become hyphens, then the
/// whole name is lowercased.
pub open spec fn spec_safe_name(s: Seq<char>) -> Seq<char> {
    lower_of(spaces_to_hyphens(s))
}

/// Convert a display name to its safe folder name.
pub fn to_safe_name(name: &str) -> (r: String)
    ensures
        r@ == spec_safe_name(name@),
{
    let n = name.unicode_len();
    let mut replaced = String::new();
    let mut i: usize = 0;
    while i < n
        invariant
            n == name@.len(),
            i <= n,
            replaced@ == spaces_to_hyphens(name@.subrange(0, i as int)),
        decreases n - i,
    {
        if name.get_char(i) == ' ' {
            replaced.append("-");
            proof {
                reveal_strlit("-");
            }
        } else {
            replaced.append(name.substring_char(i, i + 1));
        }
        i = i + 1;
        proof {
            assert(replaced@ =~= spaces_to_hyphens(name@.subrange(0, i as int)));
        }
    }
    proof {
        assert(name@.subrange(0, n as int) =~= name@);
    }
    to_lowercase_str(replaced.as_str())
}

/// The safe folder name a manifest asks for: its explicit `safe_name`
/// when present, else the one derived from its display name.
pub open spec fn spec_manifest_safe_name(m: PluginManifest) -> Seq<char> {
    match m.safe_name {
        Some(s) => s@,
        None => spec_safe_name(m.name@),
    }
}

/// The safe folder name for a manifest.
pub fn get_safe_name_from_manifest(manifest: &PluginManifest) -> (r: String)
    ensures
        r@ == spec_manifest_safe_name(*manifest),
{
    match &manifest.safe_name {
        Some(s) => s.clone(),
        None => to_safe_name(manifest.name.as_str()),
    }
}

/// The path of the state file inside the plugin directory.
pub fn get_state_file_path(plugin_dir: &str) -> (r: String)
    ensures
        r@ == plugin_dir@ + "/plugin_state.json"@,
{
    plugin_dir.to_owned().concat("/plugin_state.json")
}

/// Whether some string in `xs` has exactly the characters `x`.
pub open spec fn spec_contains_str(xs: Seq<String>, x: Seq<char>) -> bool {
    exists|i: int| 0 <= i < xs.len() && xs[i]@ == x
}

/// Whether `xs` contains the string `x`.
pub fn contains_str(xs: &Vec<String>, x: &str) -> (r: bool)
    ensures
        r == spec_contains_str(xs@, x@),
{
    let mut i: usize = 0;
    while i < xs.len()
        invariant
            i <= xs@.len(),
            forall|j: int| 0 <= j < i ==> xs@[j]@ != x@,
        decreases xs@.len() - i,
    {
        if crate::text::str_eq(xs[i].as_str(), x) {
            return true;
        }
        i = i + 1;
    }
    false
}

/// Copy a string list.
pub fn clone_strings(v: &Vec<String>) -> (r: Vec<String>)
    ensures
        r@ == v@,
{
    let mut r: Vec<String> = Vec::new();
    let mut i: usize = 0;
    while i < v.len()
        invariant
            i <= v@.len(),
            r@ == v@.subrange(0, i as int),
        decreases v@.len() - i,
    {
        r.push(v[i].clone());
        i = i + 1;
        proof {
            assert(r@ =~= v@.subrange(0, i as int));
        }
    }
    proof {
        assert(v@.subrange(0, v@.len() as int) =~= v@);
    }
    r
}

/// `granted` extended with each of `requested` in turn, skipping those
/// already present.
pub open spec fn merged_perms(granted: Seq<String>, requested: Seq<String>) -> Seq<String>
    decreases requested.len(),
{
    if requested.len() == 0 {
        granted
    } else {
        let g1 = if spec_contains_str(granted, requested[0]@) {
            granted
        } else {
            granted.push(requested[0])
        };
        merged_perms(g1, requested.drop_first())
    }
}

/// Add each requested permission that is not already granted.
pub fn merge_permissions(granted: &mut Vec<String>, requested: &Vec<String>)
    ensures
        final(granted)@ == merged_perms(old(granted)@, requested@),
{
    let mut k: usize = 0;
    proof {
        assert(requested@.skip(0) =~= requested@);
    }
    while k < requested.len()
        invariant
            k <= requested@.len(),
            merged_perms(granted@, requested@.skip(k as int)) == merged_perms(
                old(granted)@,
                requested@,
            ),
        decreases requested@.len() - k,
    {
        let ghost rem = requested@.skip(k as int);
        proof {
            assert(rem[0] == requested@[k as int]);
            assert(rem.drop_first() =~= requested@.skip(k as int + 1));
        }
        if !contains_str(granted, requested[k].as_str()) {
            granted.push(requested[k].clone());
        }
        k = k + 1;
    }
    proof {
        assert(requested@.skip(requested@.len() as int) =~= Seq::<String>::empty());
    }
}

/// `granted` without every permission named in `revoked`, in order.
pub open spec fn retained_perms(granted: Seq<String>, revoked: Seq<String>) -> Seq<String>
    decreases granted.len(),
{
    if granted.len() == 0 {
        granted
    } else if spec_contains_str(revoked, granted.last()@) {
        retained_perms(granted.drop_last(), revoked)
    } else {
        retained_perms(granted.drop_last(), revoked).push(granted.last())
    }
}

/// Keep only the granted permissions that are not being revoked.
pub fn retain_permissions(granted: &Vec<String>, revoked: &Vec<String>) -> (r: Vec<String>)
    ensures
        r@ == retained_perms(granted@, revoked@),
{
    let mut r: Vec<String> = Vec::new();
    let mut i: usize = 0;
    while i < granted.len()
        invariant
            i <= granted@.len(),
            r@ == retained_perms(granted@.subrange(0, i as int), revoked@),
        decreases granted@.len() - i,
    {
        proof {
            let pre = granted@.subrange(0, i as int);
            let post = granted@.subrange(0, i as int + 1);
            assert(post.drop_last() =~= pre);
            assert(post.last() == granted@[i as int]);
        }
        if !contains_str(revoked, granted[i].as_str()) {
            r.push(granted[i].clone());
        }
        i = i + 1;
    }
    proof {
        assert(granted@.subrange(0, granted@.len() as int) =~= granted@);
    }
    r
}

/// The tracked states of all installed plugins. The on-disk form is a
/// map keyed by plugin name, so the names in the list are unique.
#[derive(Debug)]
pub struct PluginStateStore {
    pub plugins: Vec<PluginState>,
}

/// Whether some entry carries the name `name`.
pub open spec fn spec_has_name(ps: Seq<PluginState>, name: Seq<char>) -> bool {
    exists|i: int| 0 <= i < ps.len() && ps[i].name@ == name
}

impl PluginStateStore {
    /// The store invariant: one entry per plugin name.
    pub open spec fn wf(self) -> bool {
        forall|i: int, j: int|
            0 <= i < j < self.plugins@.len() ==> self.plugins@[i].name@ != self.plugins@[j].name@
    }

    /// An empty store, as a missing or unreadable state file yields.
    pub fn new() -> (r: PluginStateStore)
        ensures
            r.wf(),
            r.plugins@.len() == 0,
    {
        PluginStateStore { plugins: Vec::new() }
    }

    /// The index of the entry named `name`, if any.
    pub fn find_index(&self, name: &str) -> (r: Option<usize>)
        ensures
            match r {
                Some(i) => i < self.plugins@.len() && self.plugins@[i as int].name@ == name@,
                None => !spec_has_name(self.plugins@, name@),
            },
    {
        let mut i: usize = 0;
        while i < self.plugins.len()
            invariant
                i <= self.plugins@.len(),
                forall|j: int| 0 <= j < i ==> self.plugins@[j].name@ != name@,
            decreases self.plugins@.len() - i,
        {
            if crate::text::str_eq(self.plugins[i].name.as_str(), name) {
                return Some(i);
            }
            i = i + 1;
        }
        None
    }

    /// Enable the plugin named `name`. An already tracked plugin is
    /// switched on and granted whatever manifest permissions it lacks;
    /// an untracked one needs a manifest, from which a fresh enabled
    /// entry is made with all its permissions granted and `now` as the
    /// install time. Without a manifest an untracked plugin is refused.
    pub fn enable(&mut self, name: &str, manifest: Option<&PluginManifest>, now: u64) -> (r: Result<
        bool,
        PluginError,
    >)
        requires
            old(self).wf(),
        ensures
            final(self).wf(),
            spec_has_name(old(self).plugins@, name@) ==> {
                &&& r == Result::<bool, PluginError>::Ok(true)
                &&& final(self).plugins@.len() == old(self).plugins@.len()
                &&& forall|i: int|
                    0 <= i < old(self).plugins@.len() && old(self).plugins@[i].name@ != name@
                        ==> final(self).plugins@[i] == old(self).plugins@[i]
                &&& forall|i: int|
                    0 <= i < old(self).plugins@.len() && old(self).plugins@[i].name@ == name@ ==> {
                        let pre = old(self).plugins@[i];
                        let post = final(self).plugins@[i];
                        &&& post.name@ == pre.name@
                        &&& post.enabled == true
                        &&& post.granted_permissions@ == (match manifest {
                            Some(m) => merged_perms(pre.granted_permissions@, m.permissions@),
                            None => pre.granted_permissions@,
                        })
                        &&& post.version@ == pre.version@
                        &&& post.plugin_type@ == pre.plugin_type@
                        &&& post.installed_at == pre.installed_at
                    }
            },
            !spec_has_name(old(self).plugins@, name@) ==> (match manifest {
                Some(m) => {
                    &&& r == Result::<bool, PluginError>::Ok(true)
                    &&& final(self).plugins@.len() == old(self).plugins@.len() + 1
                    &&& forall|i: int|
                        0 <= i < old(self).plugins@.len() ==> final(self).plugins@[i] == old(
                            self,
                        ).plugins@[i]
                    &&& {
                        let st = final(self).plugins@.last();
                        &&& st.name@ == name@
                        &&& st.enabled == true
                        &&& st.granted_permissions@ == m.permissions@
                        &&& st.version@ == m.version@
                        &&& st.plugin_type@ == m.plugin_type@
                        &&& st.installed_at == now
                    }
                },
                None => {
                    &&& r == Result::<bool, PluginError>::Err(PluginError::ManifestMissing)
                    &&& final(self).plugins@ == old(self).plugins@
                },
            }),
    {
        match self.find_index(name) {
            Some(i) => {
                let entry = &mut self.plugins[i];

                entry.enabled = true;
                if let Some(m) = manifest {
                    merge_permissions(&mut entry.granted_permissions, &m.permissions);
                }
                proof {
                    assert(forall|j: int|
                        0 <= j < old(self).plugins@.len() && j != i ==> final(self).plugins@[j]
                            == old(self).plugins@[j]);
                }
                Ok(true)
            },
            None => {
                match manifest {
                    Some(m) => {
                        let st = PluginState {
                            name: name.to_owned(),
                            enabled: true,
                            granted_permissions: clone_strings(&m.permissions),
                            version: m.version.clone(),
                            plugin_type: m.plugin_type.clone(),
                            installed_at: now,
                        };
                        self.plugins.push(st);
                        Ok(true)
                    },
                    None => Err(PluginError::ManifestMissing),
                }
            },
        }
    }

    /// Disable the plugin named `name`; refused when it is not tracked.
    pub fn disable(&mut self, name: &str) -> (r: Result<bool, PluginError>)
        requires
            old(self).wf(),
        ensures
            final(self).wf(),
            !spec_has_name(old(self).plugins@, name@) ==> r == Result::<bool, PluginError>::Err(
                PluginError::NotTracked,
            ) && final(self).plugins@ == old(self).plugins@,
            spec_has_name(old(self).plugins@, name@) ==> {
                &&& r == Result::<bool, PluginError>::Ok(true)
                &&& final(self).plugins@.len() == old(self).plugins@.len()
                &&& forall|i: int|
                    0 <= i < old(self).plugins@.len() && old(self).plugins@[i].name@ != name@
                        ==> final(self).plugins@[i] == old(self).plugins@[i]
                &&& forall|i: int|
                    0 <= i < old(self).plugins@.len() && old(self).plugins@[i].name@ == name@ ==> {
                        let pre = old(self).plugins@[i];
                        let post = final(self).plugins@[i];
                        &&& post.name@ == pre.name@
                        &&& post.enabled == false
                        &&& post.granted_permissions@ == pre.granted_permissions@
                        &&& post.version@ == pre.version@
                        &&& post.plugin_type@ == pre.plugin_type@
                        &&& post.installed_at == pre.installed_at
                    }
            },
    {
        match self.find_index(name) {
            Some(i) => {
                let entry = &mut self.plugins[i];
                entry.enabled = false;
                proof {
                    assert(forall|j: int|
                        0 <= j < old(self).plugins@.len() && j != i ==> final(self).plugins@[j]
                            == old(self).plugins@[j]);
                }
                Ok(true)
            },
            None => Err(PluginError::NotTracked),
        }
    }

    /// Grant `permissions` to the plugin named `name`, skipping those it
    /// already holds; refused when it is not tracked.
    pub fn grant(&mut self, name: &str, permissions: &Vec<String>) -> (r: Result<
        bool,
        PluginError,
    >)
        requires
            old(self).wf(),
        ensures
            final(self).wf(),
            !spec_has_name(old(self).plugins@, name@) ==> r == Result::<bool, PluginError>::Err(
                PluginError::NotTracked,
            ) && final(self).plugins@ == old(self).plugins@,
            spec_has_name(old(self).plugins@, name@) ==> {
                &&& r == Result::<bool, PluginError>::Ok(true)
                &&& final(self).plugins@.len() == old(self).plugins@.len()
                &&& forall|i: int|
                    0 <= i < old(self).plugins@.len() && old(self).plugins@[i].name@ != name@
                        ==> final(self).plugins@[i] == old(self).plugins@[i]
                &&& forall|i: int|
                    0 <= i < old(self).plugins@.len() && old(self).plugins@[i].name@ == name@ ==> {
                        let pre = old(self).plugins@[i];
                        let post = final(self).plugins@[i];
                        &&& post.name@ == pre.name@
                        &&& post.enabled == pre.enabled
                        &&& post.granted_permissions@ == merged_perms(
                            pre.granted_permissions@,
                            permissions@,
                        )
                        &&& post.version@ == pre.version@
                        &&& post.plugin_type@ == pre.plugin_type@
                        &&& post.installed_at == pre.installed_at
                    }
            },
    {
        match self.find_index(name) {
            Some(i) => {
                let entry = &mut self.plugins[i];
                merge_permissions(&mut entry.granted_permissions, permissions);
                proof {
                    assert(forall|j: int|
                        0 <= j < old(self).plugins@.len() && j != i ==> final(self).plugins@[j]
                            == old(self).plugins@[j]);
                }
                Ok(true)
            },
            None => Err(PluginError::NotTracked),
        }
    }

    /// Take `permissions` away from the plugin named `name`; refused
    /// when it is not tracked.
    pub fn revoke(&mut self, name: &str, permissions: &Vec<String>) -> (r: Result<
        bool,
        PluginError,
    >)
        requires
            old(self).wf(),
        ensures
            final(self).wf(),
            !spec_has_name(old(self).plugins@, name@) ==> r == Result::<bool, PluginError>::Err(
                PluginError::NotTracked,
            ) && final(self).plugins@ == old(self).plugins@,
            spec_has_name(old(self).plugins@, name@) ==> {
                &&& r == Result::<bool, PluginError>::Ok(true)
                &&& final(self).plugins@.len() == old(self).plugins@.len()
                &&& forall|i: int|
                    0 <= i < old(self).plugins@.len() && old(self).plugins@[i].name@ != name@
                        ==> final(self).plugins@[i] == old(self).plugins@[i]
                &&& forall|i: int|
                    0 <= i < old(self).plugins@.len() && old(self).plugins@[i].name@ == name@ ==> {
                        let pre = old(self).plugins@[i];
                        let post = final(self).plugins@[i];
                        &&& post.name@ == pre.name@
                        &&& post.enabled == pre.enabled
                        &&& post.granted_permissions@ == retained_perms(
                            pre.granted_permissions@,
                            permissions@,
                        )
                        &&& post.version@ == pre.version@
                        &&& post.plugin_type@ == pre.plugin_type@
                        &&& post.installed_at == pre.installed_at
                    }
            },
    {
        match self.find_index(name) {
            Some(i) => {
                let entry = &mut self.plugins[i];
                let kept = retain_permissions(&entry.granted_permissions, permissions);
                entry.granted_permissions = kept;
                proof {
                    assert(forall|j: int|
                        0 <= j < old(self).plugins@.len() && j != i ==> final(self).plugins@[j]
                            == old(self).plugins@[j]);
                }
                Ok(true)
            },
            None => Err(PluginError::NotTracked),
        }
    }

    /// Put `st` into the store: an entry with its name is replaced in
    /// place, as a map insert replaces its key's value; otherwise the
    /// entry is appended. Installs and updates record their outcome
    /// this way.
    pub fn upsert(&mut self, st: PluginState)
        requires
            old(self).wf(),
        ensures
            final(self).wf(),
            spec_has_name(old(self).plugins@, st.name@) ==> {
                &&& final(self).plugins@.len() == old(self).plugins@.len()
                &&& forall|i: int|
                    0 <= i < old(self).plugins@.len() && old(self).plugins@[i].name@ != st.name@
                        ==> final(self).plugins@[i] == old(self).plugins@[i]
                &&& forall|i: int|
                    0 <= i < old(self).plugins@.len() && old(self).plugins@[i].name@ == st.name@
                        ==> final(self).plugins@[i] == st
            },
            !spec_has_name(old(self).plugins@, st.name@) ==> final(self).plugins@ == old(
                self,
            ).plugins@.push(st),
    {
        let ghost name_view = st.name@;
        match self.find_index(st.name.as_str()) {
            Some(i) => {
                self.plugins.set(i, st);
                proof {
                    assert(forall|j: int|
                        0 <= j < old(self).plugins@.len() && j != i ==> final(self).plugins@[j]
                            == old(self).plugins@[j]);
                }
            },
            None => {
                self.plugins.push(st);
            },
        }
    }

    /// What a listing reports for a manifest found on disk: enabled and
    /// granted permissions come from the tracked state under the
    /// manifest's name, and an untracked plugin lists as disabled with
    /// no grants.
    pub fn info_for_manifest(&self, manifest: PluginManifest) -> (r: PluginInfo)
        requires
            self.wf(),
        ensures
            r.name@ == manifest.name@,
            !spec_has_name(self.plugins@, manifest.name@) ==> r.enabled == false
                && r.granted_permissions@.len() == 0,
            forall|i: int|
                0 <= i < self.plugins@.len() && self.plugins@[i].name@ == manifest.name@ ==> {
                    &&& r.enabled == self.plugins@[i].enabled
                    &&& r.granted_permissions@ == self.plugins@[i].granted_permissions@
                },
    {
        let name = manifest.name.clone();
        match self.find_index(name.as_str()) {
            Some(i) => {
                let entry = &self.plugins[i];
                let r = PluginInfo {
                    name,
                    enabled: entry.enabled,
                    granted_permissions: clone_strings(&entry.granted_permissions),
                    manifest,
                };
                r
            },
            None => PluginInfo {
                name,
                enabled: false,
                granted_permissions: Vec::new(),
                manifest,
            },
        }
    }

    /// Remove the entry named `name`, if any, as an uninstall does.
    pub fn remove(&mut self, name: &str)
        requires
            old(self).wf(),
        ensures
            final(self).wf(),
            !spec_has_name(final(self).plugins@, name@),
            forall|i: int|
                0 <= i < final(self).plugins@.len() ==> spec_has_name(
                    old(self).plugins@,
                    #[trigger] final(self).plugins@[i].name@,
                ),
            forall|i: int|
                0 <= i < old(self).plugins@.len() && old(self).plugins@[i].name@ != name@
                    ==> spec_has_name(final(self).plugins@, #[trigger] old(self).plugins@[i].name@),
    {
        match self.find_index(name) {
            Some(i) => {
                self.plugins.remove(i);
                proof {
                    let pre = old(self).plugins@;
                    let post = self.plugins@;
                    assert(forall|j: int|
                        0 <= j < post.len() ==> post[j] == (if j < i {
                            pre[j]
                        } else {
                            pre[j + 1]
                        }));
                    assert forall|j: int| 0 <= j < post.len() implies #[trigger] post[j].name@
                        != name@ by {
                        if j < i {
                            assert(pre[j].name@ != pre[i as int].name@);
                        } else {
                            assert(pre[j + 1].name@ != pre[i as int].name@);
                        }
                    }
                    assert forall|j: int| 0 <= j < post.len() implies spec_has_name(
                        pre,
                        #[trigger] post[j].name@,
                    ) by {
                        if j < i {
                            assert(pre[j].name@ == post[j].name@);
                        } else {
                            assert(pre[j + 1].name@ == post[j].name@);
                        }
                    }
                    assert forall|j: int|
                        0 <= j < pre.len() && pre[j].name@ != name@ implies spec_has_name(
                        post,
                        #[trigger] pre[j].name@,
                    ) by {
                        if j < i {
                            assert(post[j].name@ == pre[j].name@);
                        } else {
                            assert(j != i);
                            assert(post[j - 1].name@ == pre[j].name@);
                        }
                    }
                }
            },
            None => {
            },
        }
    }
}

/// Whether `manifest` grants its plugin the right to call `method` on
/// `target_plugin`: some declared access names that plugin and lists
/// that method.
pub fn check_cross_plugin_permission(manifest: &PluginManifest, target_plugin: &str, method: &str) -> (r: bool)
    ensures
        r == exists|i: int|
            0 <= i < manifest.cross_plugin_access@.len() && (#[trigger] manifest.cross_plugin_access@[i]).plugin@
                == target_plugin@ && spec_contains_str(
                manifest.cross_plugin_access@[i].methods@,
                method@,
            ),
{
    let mut i: usize = 0;
    while i < manifest.cross_plugin_access.len()
        invariant
            i <= manifest.cross_plugin_access@.len(),
            forall|j: int|
                0 <= j < i ==> !((#[trigger] manifest.cross_plugin_access@[j]).plugin@
                    == target_plugin@ && spec_contains_str(
                    manifest.cross_plugin_access@[j].methods@,
                    method@,
                )),
        decreases manifest.cross_plugin_access@.len() - i,
    {
        let access = &manifest.cross_plugin_access[i];
        if crate::text::str_eq(access.plugin.as_str(), target_plugin) && contains_str(
            &access.methods,
            method,
        ) {
            return true;
        }
        i = i + 1;
    }
    false
}

/// `s` without its leading `v` characters, as version strings are often
/// prefixed.
pub open spec fn stripped_v(s: Seq<char>) -> Seq<char>
    decreases s.len(),
{
    if s.len() > 0 && s[0] == 'v' {
        stripped_v(s.subrange(1, s.len() as int))
    } else {
        s
    }
}

/// The index of the first dot in `s`, or its length when it has none.
pub open spec fn first_dot(s: Seq<char>) -> nat
    decreases s.len(),
{
    if s.len() == 0 {
        0
    } else if s[0] == '.' {
        0
    } else {
        1 + first_dot(s.subrange(1, s.len() as int))
    }
}

proof fn lemma_first_dot(s: Seq<char>)
    ensures
        first_dot(s) <= s.len(),
        first_dot(s) < s.len() ==> s[first_dot(s) as int] == '.',
        forall|j: int| 0 <= j < first_dot(s) ==> s[j] != '.',
    decreases s.len(),
{
    if s.len() > 0 && s[0] != '.' {
        let t = s.subrange(1, s.len() as int);
        lemma_first_dot(t);
        assert(forall|j: int| 1 <= j < first_dot(s) ==> s[j] == t[j - 1]);
    }
}

/// The first dot is at `k` exactly when `s[k]` is a dot and nothing
/// before it is.
proof fn lemma_first_dot_at(s: Seq<char>, k: int)
    requires
        0 <= k <= s.len(),
        k < s.len() ==> s[k] == '.',
        forall|j: int| 0 <= j < k ==> s[j] != '.',
    ensures
        first_dot(s) == k,
    decreases s.len(),
{
    if s.len() > 0 && s[0] != '.' {
        let t = s.subrange(1, s.len() as int);
        assert(forall|j: int| 0 <= j < k - 1 ==> t[j] == s[j + 1]);
        lemma_first_dot_at(t, k - 1);
    }
}

/// The dot-separated segments of `s`, empty segments included.
pub open spec fn dot_segments(s: Seq<char>) -> Seq<Seq<char>>
    decreases s.len(),
{
    let d = first_dot(s);
    if d >= s.len() {
        seq![s]
    } else {
        seq![s.take(d as int)] + dot_segments(s.subrange(d as int + 1, s.len() as int))
    }
}

/// The numbers a segment list yields: each segment that parses as a
/// `u32` contributes its value, the rest are skipped.
pub open spec fn nums_of(segs: Seq<Seq<char>>) -> Seq<int>
    decreases segs.len(),
{
    if segs.len() == 0 {
        Seq::empty()
    } else {
        let head = if crate::text::parseable_u32(segs[0]) {
            seq![crate::text::parsed_u32(segs[0])]
        } else {
            Seq::<int>::empty()
        };
        head + nums_of(segs.drop_first())
    }
}

/// The numeric components of a version string: strip leading `v`s,
/// split on dots, keep the segments that parse.
pub open spec fn version_nums(s: Seq<char>) -> Seq<int> {
    nums_of(dot_segments(stripped_v(s)))
}

/// Compare two component lists from position `i` on, missing components
/// counting as zero: the remote side is newer exactly when the first
/// differing component is larger on the remote side.
pub open spec fn newer_from(local: Seq<int>, remote: Seq<int>, i: nat) -> bool
    decreases (if local.len() >= remote.len() {
        local.len()
    } else {
        remote.len()
    }) - i,
{
    let max = if local.len() >= remote.len() {
        local.len()
    } else {
        remote.len()
    };
    if i >= max {
        false
    } else {
        let a = if i < local.len() {
            local[i as int]
        } else {
            0
        };
        let b = if i < remote.len() {
            remote[i as int]
        } else {
            0
        };
        if b > a {
            true
        } else if b < a {
            false
        } else {
            newer_from(local, remote, i + 1)
        }
    }
}

/// Whether `remote` names a newer version than `local`.
pub open spec fn spec_is_newer(local: Seq<char>, remote: Seq<char>) -> bool {
    newer_from(version_nums(local), version_nums(remote), 0)
}

/// What one segment contributes to the component list.
pub open spec fn seg_head(seg: Seq<char>) -> Seq<int> {
    if crate::text::parseable_u32(seg) {
        seq![crate::text::parsed_u32(seg)]
    } else {
        Seq::<int>::empty()
    }
}

/// Peeling the segment before the first dot of the region
/// `v[seg_start..n)` leaves the region after that dot.
proof fn lemma_segments_step(v: Seq<char>, seg_start: int, dot: int, n: int)
    requires
        0 <= seg_start <= dot < n <= v.len(),
        v[dot] == '.',
        forall|j: int| seg_start <= j < dot ==> v[j] != '.',
    ensures
        nums_of(dot_segments(v.subrange(seg_start, n))) == seg_head(
            v.subrange(seg_start, dot),
        ) + nums_of(dot_segments(v.subrange(dot + 1, n))),
{
    let rem = v.subrange(seg_start, n);
    assert(forall|j: int| 0 <= j < dot - seg_start ==> rem[j] == v[j + seg_start]);
    lemma_first_dot_at(rem, dot - seg_start);
    assert(rem.take(dot - seg_start) =~= v.subrange(seg_start, dot));
    assert(rem.subrange(dot - seg_start + 1, rem.len() as int) =~= v.subrange(dot + 1, n));
    let segs = dot_segments(rem);
    assert(segs == seq![v.subrange(seg_start, dot)] + dot_segments(v.subrange(dot + 1, n)));
    assert(segs[0] == v.subrange(seg_start, dot));
    assert(segs.drop_first() =~= dot_segments(v.subrange(dot + 1, n)));
}

/// A region without a dot is one whole segment.
proof fn lemma_segments_last(v: Seq<char>, seg_start: int, n: int)
    requires
        0 <= seg_start <= n <= v.len(),
        forall|j: int| seg_start <= j < n ==> v[j] != '.',
    ensures
        nums_of(dot_segments(v.subrange(seg_start, n))) == seg_head(v.subrange(seg_start, n)),
{
    let rem = v.subrange(seg_start, n);
    assert(forall|j: int| 0 <= j < rem.len() ==> rem[j] == v[j + seg_start]);
    lemma_first_dot_at(rem, rem.len() as int);
    assert(dot_segments(rem) == seq![rem]);
    let segs = dot_segments(rem);
    assert(segs[0] == rem);
    assert(segs.drop_first() =~= Seq::<Seq<char>>::empty());
    assert(nums_of(segs.drop_first()) == Seq::<int>::empty());
    assert(nums_of(segs) == seg_head(segs[0]) + nums_of(segs.drop_first()));
    assert(seg_head(rem) + Seq::<int>::empty() =~= seg_head(rem));
}

/// The numeric components of a version string.
pub fn parse_version_nums(s: &str) -> (r: Vec<u32>)
    ensures
        r@.map_values(|x: u32| x as int) == version_nums(s@),
{
    let chars = crate::text::str_to_chars(s);
    let n = chars.len();
    let mut start: usize = 0;
    proof {
        assert(chars@.subrange(0, n as int) =~= s@);
    }
    while start < n && chars[start] == 'v'
        invariant
            n == chars@.len(),
            chars@ == s@,
            start <= n,
            stripped_v(s@) == stripped_v(chars@.subrange(start as int, n as int)),
        decreases n - start,
    {
        proof {
            let cur = chars@.subrange(start as int, n as int);
            assert(cur.subrange(1, cur.len() as int) =~= chars@.subrange(start as int + 1, n as int));
        }
        start = start + 1;
    }
    proof {
        let cur = chars@.subrange(start as int, n as int);
        if start < n {
            assert(cur[0] != 'v');
        }
        assert(stripped_v(cur) == cur);
    }

    let mut r: Vec<u32> = Vec::new();
    let mut seg_start: usize = start;
    let mut i: usize = start;
    proof {
        assert(r@.map_values(|x: u32| x as int) + nums_of(
            dot_segments(chars@.subrange(seg_start as int, n as int)),
        ) =~= version_nums(s@));
    }
    while i < n
        invariant
            n == chars@.len(),
            chars@ == s@,
            start <= seg_start <= i <= n,
            forall|j: int| seg_start <= j < i ==> chars@[j] != '.',
            r@.map_values(|x: u32| x as int) + nums_of(
                dot_segments(chars@.subrange(seg_start as int, n as int)),
            ) == version_nums(s@),
        decreases n - i,
    {
        if chars[i] == '.' {
            proof {
                lemma_segments_step(chars@, seg_start as int, i as int, n as int);
            }
            let ghost r_pre = r@;
            match crate::text::parse_u32_in(&chars, seg_start, i) {
                Some(x) => {
                    r.push(x);
                    proof {
                        assert(r@.map_values(|y: u32| y as int) =~= r_pre.map_values(
                            |y: u32| y as int,
                        ).push(x as int));
                        assert(r@.map_values(|y: u32| y as int) + nums_of(
                            dot_segments(chars@.subrange(i as int + 1, n as int)),
                        ) =~= version_nums(s@));
                    }
                },
                None => {
                },
            }
            seg_start = i + 1;
        }
        i = i + 1;
    }
    proof {
        lemma_segments_last(chars@, seg_start as int, n as int);
    }
    let ghost r_pre = r@;
    match crate::text::parse_u32_in(&chars, seg_start, n) {
        Some(x) => {
            r.push(x);
            proof {
                assert(r@.map_values(|y: u32| y as int) =~= r_pre.map_values(
                    |y: u32| y as int,
                ).push(x as int));
                assert(r@.map_values(|y: u32| y as int) =~= version_nums(s@));
            }
        },
        None => {
            proof {
                assert(r@.map_values(|y: u32| y as int) =~= version_nums(s@));
            }
        },
    }
    r
}

/// The update a freshly fetched manifest offers for an installed one:
/// reported only for a plugin that records its repository URL, and only
/// when the remote version is newer than the installed one.
pub fn plugin_update_info(local: &PluginManifest, remote_version: &str) -> (r: Option<
    PluginUpdateInfo,
>)
    ensures
        r is Some <==> (local.repo is Some && spec_is_newer(local.version@, remote_version@)),
        r matches Some(u) ==> {
            &&& u.name@ == local.name@
            &&& u.current_version@ == local.version@
            &&& u.new_version@ == remote_version@
            &&& u.repo_url@ == local.repo->0@
        },
{
    match &local.repo {
        Some(repo_url) => {
            if is_newer_version(local.version.as_str(), remote_version) {
                Some(
                    PluginUpdateInfo {
                        name: local.name.clone(),
                        current_version: local.version.clone(),
                        new_version: remote_version.to_owned(),
                        repo_url: repo_url.clone(),
                    },
                )
            } else {
                None
            }
        },
        None => None,
    }
}

/// `s` without its trailing slashes.
pub open spec fn stripped_trailing_slashes(s: Seq<char>) -> Seq<char>
    decreases s.len(),
{
    if s.len() > 0 && s.last() == '/' {
        stripped_trailing_slashes(s.drop_last())
    } else {
        s
    }
}

/// The index of the last slash in `s`, or `-1` when it has none.
pub open spec fn last_slash(s: Seq<char>) -> int
    decreases s.len(),
{
    if s.len() == 0 {
        -1
    } else if s.last() == '/' {
        s.len() - 1
    } else {
        last_slash(s.drop_last())
    }
}

/// The last slash is at `k` exactly when `s[k]` is a slash and nothing
/// after it is; `k == -1` says there is none at all.
proof fn lemma_last_slash_at(s: Seq<char>, k: int)
    requires
        -1 <= k < s.len(),
        k >= 0 ==> s[k] == '/',
        forall|j: int| k < j < s.len() ==> s[j] != '/',
    ensures
        last_slash(s) == k,
    decreases s.len(),
{
    if s.len() > 0 && s.last() != '/' {
        lemma_last_slash_at(s.drop_last(), k);
    }
}

/// The owner and repository that a repository URL names: after trailing
/// slashes are stripped, the last two slash-separated parts. `None`
/// when the URL has fewer than two parts.
pub open spec fn spec_repo_parts(s: Seq<char>) -> Option<(Seq<char>, Seq<char>)> {
    let t = stripped_trailing_slashes(s);
    let k = last_slash(t);
    if k < 0 {
        None
    } else {
        let p = last_slash(t.take(k));
        Some((t.subrange(p + 1, k), t.subrange(k + 1, t.len() as int)))
    }
}

/// Split a repository URL into its owner and repository name, the last
/// two slash-separated parts once trailing slashes are dropped. `None`
/// stands for an invalid repository URL.
pub fn parse_repo_url(repo_url: &str) -> (r: Option<(String, String)>)
    ensures
        r is Some <==> spec_repo_parts(repo_url@) is Some,
        r matches Some((owner, repo)) ==> {
            &&& Some((owner@, repo@)) == spec_repo_parts(repo_url@)
        },
{
    let n = repo_url.unicode_len();
    let mut b: usize = n;
    proof {
        assert(repo_url@.take(n as int) =~= repo_url@);
    }
    while b > 0 && repo_url.get_char(b - 1) == '/'
        invariant
            n == repo_url@.len(),
            b <= n,
            stripped_trailing_slashes(repo_url@) == stripped_trailing_slashes(
                repo_url@.take(b as int),
            ),
        decreases b,
    {
        proof {
            let cur = repo_url@.take(b as int);
            assert(cur.drop_last() =~= repo_url@.take(b as int - 1));
        }
        b = b - 1;
    }
    let ghost t = repo_url@.take(b as int);
    proof {
        if b > 0 {
            assert(t.last() == repo_url@[b as int - 1]);
        }
        assert(stripped_trailing_slashes(t) == t);
    }

    let mut k: usize = b;
    while k > 0 && repo_url.get_char(k - 1) != '/'
        invariant
            n == repo_url@.len(),
            k <= b <= n,
            forall|j: int| k <= j < b ==> repo_url@[j] != '/',
        decreases k,
    {
        k = k - 1;
    }
    proof {
        assert(forall|j: int| 0 <= j < b ==> t[j] == repo_url@[j]);
        if k == 0 {
            lemma_last_slash_at(t, -1);
        } else {
            lemma_last_slash_at(t, k as int - 1);
        }
    }
    if k == 0 {
        return None;
    }
    let slash = k - 1;

    let mut p: usize = slash;
    while p > 0 && repo_url.get_char(p - 1) != '/'
        invariant
            n == repo_url@.len(),
            p <= slash < b <= n,
            forall|j: int| p <= j < slash ==> repo_url@[j] != '/',
        decreases p,
    {
        p = p - 1;
    }
    proof {
        let head = t.take(slash as int);
        assert(forall|j: int| 0 <= j < slash ==> head[j] == repo_url@[j]);
        if p == 0 {
            lemma_last_slash_at(head, -1);
        } else {
            lemma_last_slash_at(head, p as int - 1);
        }
    }
    let owner = repo_url.substring_char(p, slash);
    let repo = repo_url.substring_char(slash + 1, b);
    proof {
        assert(repo_url@.subrange(p as int, slash as int) =~= t.subrange(
            last_slash(t.take(last_slash(t))) + 1,
            last_slash(t),
        ));
        assert(repo_url@.subrange(slash as int + 1, b as int) =~= t.subrange(
            last_slash(t) + 1,
            t.len() as int,
        ));
    }
    Some((owner.to_owned(), repo.to_owned()))
}

/// Why a notification image request was refused.
#[derive(Clone, Copy, Debug, PartialEq, Eq, Structural)]
pub enum DataUriError {
    /// The data URI does not have exactly one comma.
    BadFormat,
    /// The payload after the comma is not valid base64.
    BadBase64,
}

/// The header and payload of a data URI: the text before and after its
/// comma. `None` unless there is exactly one comma.
pub open spec fn data_uri_split(s: Seq<char>) -> Option<(Seq<char>, Seq<char>)> {
    let k = crate::text::index_of_char(s, ',');
    if k >= s.len() {
        None
    } else {
        let rest = s.subrange(k as int + 1, s.len() as int);
        if crate::text::index_of_char(rest, ',') < rest.len() {
            None
        } else {
            Some((s.take(k as int), rest))
        }
    }
}

/// The image file extension a data URI header asks for: `jpg` for JPEG
/// (the default too), or `png` or `gif` when the header names those.
pub open spec fn spec_image_ext(header: Seq<char>) -> Seq<char> {
    if crate::text::spec_str_contains(header, "jpeg"@) || crate::text::spec_str_contains(
        header,
        "jpg"@,
    ) {
        "jpg"@
    } else if crate::text::spec_str_contains(header, "png"@) {
        "png"@
    } else if crate::text::spec_str_contains(header, "gif"@) {
        "gif"@
    } else {
        "jpg"@
    }
}

/// What base64 standard-alphabet decoding yields for a given input, or
/// `None` when the input is not valid base64.
pub uninterp spec fn base64_standard_decoded(s: Seq<char>) -> Option<Seq<u8>>;

/// Relies on base64's `STANDARD` engine: decoding is a fixed function
/// of the input characters, failing exactly on malformed base64.
#[verifier::external_body]
fn base64_decode_standard(s: &str) -> (r: Result<Vec<u8>, ()>)
    ensures
        r is Ok <==> base64_standard_decoded(s@) is Some,
        r matches Ok(v) ==> Some(v@) == base64_standard_decoded(s@),
{
    match base64::engine::general_purpose::STANDARD.decode(s) {
        Ok(v) => Ok(v),
        Err(_) => Err(()),
    }
}

/// Decode a notification image from a data URI: the text must have
/// exactly one comma, the header before it picks the file extension,
/// and the payload after it must decode as base64.
pub fn notification_image_from_data_uri(data_uri: &str) -> (r: Result<
    (String, Vec<u8>),
    DataUriError,
>)
    ensures
        data_uri_split(data_uri@) is None ==> r == Result::<(String, Vec<u8>), DataUriError>::Err(
            DataUriError::BadFormat,
        ),
        data_uri_split(data_uri@) matches Some((header, payload)) ==> {
            &&& base64_standard_decoded(payload) is None ==> r == Result::<
                (String, Vec<u8>),
                DataUriError,
            >::Err(DataUriError::BadBase64)
            &&& base64_standard_decoded(payload) matches Some(bytes) ==> {
                &&& r is Ok
                &&& r->Ok_0.0@ == spec_image_ext(header)
                &&& r->Ok_0.1@ == bytes
            }
        },
{
    let n = data_uri.unicode_len();
    let mut k: usize = 0;
    while k < n && data_uri.get_char(k) != ','
        invariant
            n == data_uri@.len(),
            k <= n,
            forall|j: int| 0 <= j < k ==> data_uri@[j] != ',',
        decreases n - k,
    {
        k = k + 1;
    }
    proof {
        lemma_index_of_char_at_comma(data_uri@, k as int);
    }
    if k == n {
        return Err(DataUriError::BadFormat);
    }
    let ghost rest = data_uri@.subrange(k as int + 1, n as int);

    let mut j: usize = k + 1;
    while j < n && data_uri.get_char(j) != ','
        invariant
            n == data_uri@.len(),
            k < j <= n,
            forall|q: int| k < q < j ==> data_uri@[q] != ',',
        decreases n - j,
    {
        j = j + 1;
    }
    proof {
        assert(forall|q: int| 0 <= q < rest.len() ==> rest[q] == data_uri@[q + k + 1]);
        lemma_index_of_char_at_comma(rest, j - k - 1);
    }
    if j < n {
        return Err(DataUriError::BadFormat);
    }

    let header = data_uri.substring_char(0, k);
    let payload = data_uri.substring_char(k + 1, n);
    proof {
        assert(header@ =~= data_uri@.take(k as int));
        assert(payload@ =~= rest);
    }

    let ext: String = if crate::text::str_contains(header, "jpeg") || crate::text::str_contains(
        header,
        "jpg",
    ) {
        "jpg".to_owned()
    } else if crate::text::str_contains(header, "png") {
        "png".to_owned()
    } else if crate::text::str_contains(header, "gif") {
        "gif".to_owned()
    } else {
        "jpg".to_owned()
    };

    match base64_decode_standard(payload) {
        Ok(bytes) => Ok((ext, bytes)),
        Err(_) => Err(DataUriError::BadBase64),
    }
}

/// Forward the comma-position characterization to `index_of_char`.
proof fn lemma_index_of_char_at_comma(s: Seq<char>, k: int)
    requires
        0 <= k <= s.len(),
        k < s.len() ==> s[k] == ',',
        forall|j: int| 0 <= j < k ==> s[j] != ',',
    ensures
        crate::text::index_of_char(s, ',') == k,
{
    crate::text::lemma_index_of_char_at(s, ',', k);
}

/// Whether `remote` is a newer version than `local`: compare the
/// numeric dot-components left to right, missing components counting as
/// zero.
pub fn is_newer_version(local: &str, remote: &str) -> (r: bool)
    ensures
        r == spec_is_newer(local@, remote@),
{
    let ln = parse_version_nums(local);
    let rn = parse_version_nums(remote);
    let ghost la = ln@.map_values(|x: u32| x as int);
    let ghost ra = rn@.map_values(|x: u32| x as int);
    let max = if ln.len() >= rn.len() {
        ln.len()
    } else {
        rn.len()
    };
    let mut i: usize = 0;
    while i < max
        invariant
            la == ln@.map_values(|x: u32| x as int),
            ra == rn@.map_values(|x: u32| x as int),
            la == version_nums(local@),
            ra == version_nums(remote@),
            max == (if la.len() >= ra.len() {
                la.len()
            } else {
                ra.len()
            }),
            i <= max,
            spec_is_newer(local@, remote@) == newer_from(la, ra, i as nat),
        decreases max - i,
    {
        let a: u32 = if i < ln.len() {
            ln[i]
        } else {
            0
        };
        let b: u32 = if i < rn.len() {
            rn[i]
        } else {
            0
        };
        if b > a {
            return true;
        } else if b < a {
            return false;
        }
        i = i + 1;
    }
    false
}

} // verus!
