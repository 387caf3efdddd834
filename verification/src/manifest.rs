//! Validation of plugin manifests before installation, and the related
//! archive-safety checks: identifier and version format, protocol and
//! permission whitelists, platform coverage, and the rejection of archive
//! entries that could escape the installation directory.

use vstd::prelude::*;

use crate::text::{str_equal, trim_spec, trim_str};

verus! {

/// A plugin manifest, as the installer reads it from `plugin.json`.
/// `entry` maps a platform key to the relative path of the plugin binary.
pub struct PluginManifest {
    pub id: String,
    pub name: String,
    pub version: String,
    pub description: String,
    pub author: String,
    pub license: String,
    pub api_version: String,
    pub entry: Vec<(String, String)>,
    pub protocol: String,
    pub permissions: Vec<String>,
    pub permission_reasons: Vec<(String, String)>,
    pub sandbox_level: String,
    pub homepage: Option<String>,
}

/// One reason a manifest is rejected, or warned about.
#[derive(Clone, Copy, PartialEq, Eq, Debug, Structural)]
pub enum ManifestIssue {
    /// The identifier is empty.
    EmptyId,
    /// The identifier is not a lower-case token of 3 to 64 characters.
    BadIdFormat,
    /// The name is blank.
    MissingName,
    /// The version is not three dot-separated decimal numbers.
    BadVersionFormat,
    /// The API version is empty.
    MissingApiVersion,
    /// The API version is not the supported one.
    UnsupportedApiVersion,
    /// The communication protocol is not line-delimited JSON-RPC.
    UnsupportedProtocol,
    /// No entry paths are declared.
    MissingEntry,
    /// Some entry path could escape the plugin directory.
    UnsafeEntryPath,
    /// No entry path covers the current platform.
    PlatformNotSupported,
    /// Some declared permission is not in the whitelist.
    UnknownPermission,
    /// The sandbox level is `system` without the external-network
    /// permission.
    SystemSandboxWithoutNet,
}

/// An ASCII lower-case letter.
pub open spec fn lower_char(c: char) -> bool {
    'a' <= c && c <= 'z'
}

/// An ASCII digit.
pub open spec fn digit_char(c: char) -> bool {
    '0' <= c && c <= '9'
}

/// A well-formed plugin identifier: starts with a lower-case letter, holds
/// only lower-case letters, digits and `-`, and is 3 to 64 characters.
pub open spec fn valid_plugin_id(id: Seq<char>) -> bool {
    &&& 3 <= id.len() <= 64
    &&& lower_char(id[0])
    &&& forall|i: int| 0 <= i < id.len() ==> lower_char(id[i]) || digit_char(id[i]) || id[i] == '-'
}

/// A non-empty run of decimal digits.
pub open spec fn all_digits(s: Seq<char>) -> bool {
    s.len() > 0 && forall|i: int| 0 <= i < s.len() ==> digit_char(s[i])
}

/// The first index at or after `j` holding a dot, or the end of the
/// sequence.
pub open spec fn dot_end(s: Seq<char>, j: int) -> int
    decreases s.len() - j,
    when 0 <= j
{
    if j >= s.len() {
        s.len() as int
    } else if s[j] == '.' {
        j
    } else {
        dot_end(s, j + 1)
    }
}

/// The first dot is characterized by the dot-free run before it.
proof fn lemma_dot_end_at(s: Seq<char>, j: int, e: int)
    requires
        0 <= j <= e <= s.len(),
        forall|k: int| j <= k < e ==> s[k] != '.',
        e == s.len() || s[e] == '.',
    ensures
        dot_end(s, j) == e,
    decreases e - j,
{
    if j < e {
        lemma_dot_end_at(s, j + 1, e);
    }
}

/// A version of the form `x.y.z`: exactly two dots, with a non-empty digit
/// run before, between and after them.
pub open spec fn valid_semver(v: Seq<char>) -> bool {
    let a = dot_end(v, 0);
    let b = dot_end(v, a + 1);
    &&& a < v.len()
    &&& b < v.len()
    &&& all_digits(v.subrange(0, a))
    &&& all_digits(v.subrange(a + 1, b))
    &&& all_digits(v.subrange(b + 1, v.len() as int))
}

/// Two consecutive dots at index `i` of `p`.
pub open spec fn dotdot_at(p: Seq<char>, i: int) -> bool {
    0 <= i && i + 2 <= p.len() && p[i] == '.' && p[i + 1] == '.'
}

/// Whether a relative archive or entry path is safe: no `..` anywhere and
/// no absolute start, so it cannot escape the installation directory.
pub open spec fn safe_relative_path(p: Seq<char>) -> bool {
    &&& !(exists|i: int| dotdot_at(p, i))
    &&& (p.len() > 0 ==> p[0] != '/' && p[0] != '\\')
}

/// Decide `safe_relative_path` on a concrete path.
pub fn is_safe_relative_path(p: &str) -> (r: bool)
    ensures
        r == safe_relative_path(p@),
{
    let n = p.unicode_len();
    if n > 0 && (p.get_char(0) == '/' || p.get_char(0) == '\\') {
        return false;
    }
    let mut i: usize = 0;
    while i < n && i + 1 < n
        invariant
            i <= n,
            n == p@.len(),
            forall|k: int| k < i ==> !dotdot_at(p@, k),
        decreases n - i,
    {
        if p.get_char(i) == '.' && p.get_char(i + 1) == '.' {
            assert(dotdot_at(p@, i as int));
            return false;
        }
        i = i + 1;
    }
    proof {
        assert forall|k: int| !dotdot_at(p@, k) by {
            if dotdot_at(p@, k) {
                assert(k + 2 <= n);
            }
        }
    }
    true
}

/// Whether an archive entry name may be the plugin manifest: `plugin.json`
/// at the root or in a subdirectory.
pub open spec fn manifest_entry_name(name: Seq<char>) -> bool {
    name == "plugin.json"@ || (name.len() >= 12 && name.subrange(
        name.len() - 12,
        name.len() as int,
    ) == "/plugin.json"@)
}

/// Decide `manifest_entry_name` on a concrete archive entry name.
pub fn is_manifest_entry_name(name: &str) -> (r: bool)
    ensures
        r == manifest_entry_name(name@),
{
    if str_equal(name, "plugin.json") {
        return true;
    }
    let n = name.unicode_len();
    if n < 12 {
        proof {
            reveal_strlit("/plugin.json");
        }
        return false;
    }
    let tail = name.substring_char(n - 12, n);
    str_equal(tail, "/plugin.json")
}

/// The permissions a plugin may declare.
pub open spec fn allowed_permission(p: Seq<char>) -> bool {
    ||| p == "editor:read"@
    ||| p == "editor:write"@
    ||| p == "ai:chat"@
    ||| p == "ai:image"@
    ||| p == "ai:voice"@
    ||| p == "ai:voice:capture"@
    ||| p == "net:external"@
}

/// Decide `allowed_permission` on a concrete permission string.
pub fn is_allowed_permission(p: &str) -> (r: bool)
    ensures
        r == allowed_permission(p@),
{
    str_equal(p, "editor:read") || str_equal(p, "editor:write") || str_equal(p, "ai:chat")
        || str_equal(p, "ai:image") || str_equal(p, "ai:voice") || str_equal(p, "ai:voice:capture")
        || str_equal(p, "net:external")
}

/// The platform key used in manifests for an operating system and
/// architecture pair.
pub fn platform_key(os: &str, arch: &str) -> (r: String)
    ensures
        r@ == if os@ == "macos"@ {
            if arch@ == "aarch64"@ {
                "darwin-aarch64"@
            } else {
                "darwin-x86_64"@
            }
        } else if os@ == "windows"@ {
            "win32"@
        } else if os@ == "linux"@ {
            "linux-x86_64"@
        } else {
            "unknown"@
        },
{
    if str_equal(os, "macos") {
        if str_equal(arch, "aarch64") {
            "darwin-aarch64".to_owned()
        } else {
            "darwin-x86_64".to_owned()
        }
    } else if str_equal(os, "windows") {
        "win32".to_owned()
    } else if str_equal(os, "linux") {
        "linux-x86_64".to_owned()
    } else {
        "unknown".to_owned()
    }
}

/// Every declared entry path is safe.
pub open spec fn all_entry_paths_safe(m: PluginManifest) -> bool {
    forall|i: int| 0 <= i < m.entry@.len() ==> safe_relative_path(#[trigger] m.entry@[i].1@)
}

/// Some entry covers the given platform key.
pub open spec fn entry_covers(m: PluginManifest, platform: Seq<char>) -> bool {
    exists|i: int| 0 <= i < m.entry@.len() && #[trigger] m.entry@[i].0@ == platform
}

/// Every declared permission is in the whitelist.
pub open spec fn all_permissions_allowed(m: PluginManifest) -> bool {
    forall|i: int|
        0 <= i < m.permissions@.len() ==> allowed_permission(#[trigger] m.permissions@[i]@)
}

/// The external-network permission is declared.
pub open spec fn declares_net_permission(m: PluginManifest) -> bool {
    exists|i: int| 0 <= i < m.permissions@.len() && #[trigger] m.permissions@[i]@ == "net:external"@
}

/// Whether a manifest passes every installation check for the given
/// platform key.
pub open spec fn manifest_valid(m: PluginManifest, platform: Seq<char>) -> bool {
    &&& valid_plugin_id(m.id@)
    &&& trim_spec(m.name@).len() > 0
    &&& valid_semver(m.version@)
    &&& m.api_version@ == "1"@
    &&& m.protocol@ == "jsonrpc-stdio"@
    &&& m.entry@.len() > 0
    &&& all_entry_paths_safe(m)
    &&& entry_covers(m, platform)
    &&& all_permissions_allowed(m)
}

/// Whether a manifest draws the sandbox warning: level `system` without
/// the external-network permission.
pub open spec fn manifest_warns(m: PluginManifest) -> bool {
    m.sandbox_level@ == "system"@ && !declares_net_permission(m)
}

/// A sequence holding `x` exactly when `b`.
pub open spec fn issue_if(b: bool, x: ManifestIssue) -> Seq<ManifestIssue> {
    if b {
        seq![x]
    } else {
        Seq::empty()
    }
}

/// Appending `issue_if(c, x)` is a push when `c` holds and a no-op
/// otherwise.
proof fn lemma_issue_step(prev: Seq<ManifestIssue>, c: bool, x: ManifestIssue)
    ensures
        c ==> prev + issue_if(c, x) == prev.push(x),
        !c ==> prev + issue_if(c, x) == prev,
{
    if c {
        assert(prev + issue_if(c, x) =~= prev.push(x));
    } else {
        assert(prev + issue_if(c, x) =~= prev);
    }
}

/// The exact error list `validate_manifest` produces, in order.
pub open spec fn manifest_error_seq(m: PluginManifest, platform: Seq<char>) -> Seq<ManifestIssue> {
    issue_if(m.id@.len() == 0, ManifestIssue::EmptyId) + issue_if(
        m.id@.len() > 0 && !valid_plugin_id(m.id@),
        ManifestIssue::BadIdFormat,
    ) + issue_if(trim_spec(m.name@).len() == 0, ManifestIssue::MissingName) + issue_if(
        !valid_semver(m.version@),
        ManifestIssue::BadVersionFormat,
    ) + issue_if(m.api_version@.len() == 0, ManifestIssue::MissingApiVersion) + issue_if(
        m.api_version@.len() > 0 && m.api_version@ != "1"@,
        ManifestIssue::UnsupportedApiVersion,
    ) + issue_if(m.protocol@ != "jsonrpc-stdio"@, ManifestIssue::UnsupportedProtocol) + issue_if(
        m.entry@.len() == 0,
        ManifestIssue::MissingEntry,
    ) + issue_if(
        m.entry@.len() > 0 && !all_entry_paths_safe(m),
        ManifestIssue::UnsafeEntryPath,
    ) + issue_if(
        m.entry@.len() > 0 && !entry_covers(m, platform),
        ManifestIssue::PlatformNotSupported,
    ) + issue_if(!all_permissions_allowed(m), ManifestIssue::UnknownPermission)
}

/// Validate a manifest against the installation rules for a platform.
/// The error list is empty exactly when the manifest is valid; the warning
/// list is empty exactly when the sandbox warning does not apply.
#[verifier::rlimit(100)]
pub fn validate_manifest(m: &PluginManifest, platform: &str) -> (r: (
    Vec<ManifestIssue>,
    Vec<ManifestIssue>,
))
    ensures
        r.0@ == manifest_error_seq(*m, platform@),
        r.0@.len() == 0 <==> manifest_valid(*m, platform@),
        r.1@.len() == 0 <==> !manifest_warns(*m),
        r.1@.len() != 0 ==> r.1@ == seq![ManifestIssue::SystemSandboxWithoutNet],
{
    let mut errors: Vec<ManifestIssue> = Vec::new();
    let ghost mut exp: Seq<ManifestIssue> = Seq::empty();

    let id_empty = m.id.as_str().unicode_len() == 0;
    if id_empty {
        errors.push(ManifestIssue::EmptyId);
    }
    proof {
        exp = issue_if(m.id@.len() == 0, ManifestIssue::EmptyId);
        assert(errors@ =~= exp);
    }
    let id_ok = check_plugin_id(m.id.as_str());
    if !id_empty && !id_ok {
        errors.push(ManifestIssue::BadIdFormat);
    }
    proof {
        lemma_issue_step(exp, m.id@.len() > 0 && !valid_plugin_id(m.id@), ManifestIssue::BadIdFormat);
        exp = exp + issue_if(m.id@.len() > 0 && !valid_plugin_id(m.id@), ManifestIssue::BadIdFormat);
        assert(errors@ == exp);
    }
    let name_trimmed = trim_str(m.name.as_str());
    if name_trimmed.as_str().unicode_len() == 0 {
        errors.push(ManifestIssue::MissingName);
    }
    proof {
        lemma_issue_step(exp, trim_spec(m.name@).len() == 0, ManifestIssue::MissingName);
        exp = exp + issue_if(trim_spec(m.name@).len() == 0, ManifestIssue::MissingName);
        assert(errors@ == exp);
    }
    if !check_semver(m.version.as_str()) {
        errors.push(ManifestIssue::BadVersionFormat);
    }
    proof {
        lemma_issue_step(exp, !valid_semver(m.version@), ManifestIssue::BadVersionFormat);
        exp = exp + issue_if(!valid_semver(m.version@), ManifestIssue::BadVersionFormat);
        assert(errors@ == exp);
    }
    let api_empty = m.api_version.as_str().unicode_len() == 0;
    if api_empty {
        errors.push(ManifestIssue::MissingApiVersion);
    }
    proof {
        lemma_issue_step(exp, m.api_version@.len() == 0, ManifestIssue::MissingApiVersion);
        exp = exp + issue_if(m.api_version@.len() == 0, ManifestIssue::MissingApiVersion);
        assert(errors@ == exp);
    }
    if !api_empty && !str_equal(m.api_version.as_str(), "1") {
        errors.push(ManifestIssue::UnsupportedApiVersion);
    }
    proof {
        lemma_issue_step(exp, m.api_version@.len() > 0 && m.api_version@ != "1"@, ManifestIssue::UnsupportedApiVersion);
        exp = exp + issue_if(m.api_version@.len() > 0 && m.api_version@ != "1"@, ManifestIssue::UnsupportedApiVersion);
        assert(errors@ == exp);
    }
    if !str_equal(m.protocol.as_str(), "jsonrpc-stdio") {
        errors.push(ManifestIssue::UnsupportedProtocol);
    }
    proof {
        lemma_issue_step(exp, m.protocol@ != "jsonrpc-stdio"@, ManifestIssue::UnsupportedProtocol);
        exp = exp + issue_if(m.protocol@ != "jsonrpc-stdio"@, ManifestIssue::UnsupportedProtocol);
        assert(errors@ == exp);
    }
    let entry_missing = m.entry.len() == 0;
    if entry_missing {
        errors.push(ManifestIssue::MissingEntry);
    }
    proof {
        lemma_issue_step(exp, m.entry@.len() == 0, ManifestIssue::MissingEntry);
        exp = exp + issue_if(m.entry@.len() == 0, ManifestIssue::MissingEntry);
        assert(errors@ == exp);
    }
    if !entry_missing && !check_entry_paths(&m.entry) {
        errors.push(ManifestIssue::UnsafeEntryPath);
    }
    proof {
        let c = m.entry@.len() > 0 && !all_entry_paths_safe(*m);
        lemma_issue_step(exp, c, ManifestIssue::UnsafeEntryPath);
        exp = exp + issue_if(c, ManifestIssue::UnsafeEntryPath);
        assert(errors@ == exp);
    }
    if !entry_missing && !check_platform_covered(&m.entry, platform) {
        errors.push(ManifestIssue::PlatformNotSupported);
    }
    proof {
        let c = m.entry@.len() > 0 && !entry_covers(*m, platform@);
        lemma_issue_step(exp, c, ManifestIssue::PlatformNotSupported);
        exp = exp + issue_if(c, ManifestIssue::PlatformNotSupported);
        assert(errors@ == exp);
    }
    if !check_permissions(&m.permissions) {
        errors.push(ManifestIssue::UnknownPermission);
    }
    proof {
        let c = !all_permissions_allowed(*m);
        lemma_issue_step(exp, c, ManifestIssue::UnknownPermission);
        exp = exp + issue_if(c, ManifestIssue::UnknownPermission);
        assert(errors@ == exp);
    }

    let mut warnings: Vec<ManifestIssue> = Vec::new();
    if str_equal(m.sandbox_level.as_str(), "system") && !has_net_permission(&m.permissions) {
        warnings.push(ManifestIssue::SystemSandboxWithoutNet);
    }

    proof {
        let e1 = issue_if(m.id@.len() == 0, ManifestIssue::EmptyId);
        let e2 = e1 + issue_if(m.id@.len() > 0 && !valid_plugin_id(m.id@), ManifestIssue::BadIdFormat);
        let e3 = e2 + issue_if(trim_spec(m.name@).len() == 0, ManifestIssue::MissingName);
        let e4 = e3 + issue_if(!valid_semver(m.version@), ManifestIssue::BadVersionFormat);
        let e5 = e4 + issue_if(m.api_version@.len() == 0, ManifestIssue::MissingApiVersion);
        let e6 = e5 + issue_if(m.api_version@.len() > 0 && m.api_version@ != "1"@, ManifestIssue::UnsupportedApiVersion);
        let e7 = e6 + issue_if(m.protocol@ != "jsonrpc-stdio"@, ManifestIssue::UnsupportedProtocol);
        let e8 = e7 + issue_if(m.entry@.len() == 0, ManifestIssue::MissingEntry);
        let e9 = e8 + issue_if(m.entry@.len() > 0 && !all_entry_paths_safe(*m), ManifestIssue::UnsafeEntryPath);
        let e10 = e9 + issue_if(m.entry@.len() > 0 && !entry_covers(*m, platform@), ManifestIssue::PlatformNotSupported);
        let e11 = e10 + issue_if(!all_permissions_allowed(*m), ManifestIssue::UnknownPermission);
        assert(exp == e11);
        assert(manifest_error_seq(*m, platform@) == e11);
        assert(exp == manifest_error_seq(*m, platform@));
        if manifest_valid(*m, platform@) {
            reveal_strlit("1");
            assert(errors@.len() == 0);
        }
        if errors@.len() == 0 {
            assert(manifest_valid(*m, platform@));
        }
    }
    (errors, warnings)
}

/// Decide `valid_plugin_id` on a concrete identifier.
fn check_plugin_id(id: &str) -> (r: bool)
    ensures
        r == valid_plugin_id(id@),
{
    let n = id.unicode_len();
    if n < 3 || n > 64 {
        return false;
    }
    let first = id.get_char(0);
    if !('a' <= first && first <= 'z') {
        return false;
    }
    let mut i: usize = 0;
    while i < n
        invariant
            i <= n,
            n == id@.len(),
            forall|k: int|
                0 <= k < i ==> lower_char(id@[k]) || digit_char(id@[k]) || id@[k] == '-',
        decreases n - i,
    {
        let c = id.get_char(i);
        if !(('a' <= c && c <= 'z') || ('0' <= c && c <= '9') || c == '-') {
            return false;
        }
        i = i + 1;
    }
    true
}

/// Decide `all_digits` on a subrange of a concrete string.
fn check_digits(s: &str, from: usize, to: usize) -> (r: bool)
    requires
        from <= to <= s@.len(),
    ensures
        r == all_digits(s@.subrange(from as int, to as int)),
{
    if from == to {
        return false;
    }
    let mut i: usize = from;
    while i < to
        invariant
            from <= i <= to,
            to <= s@.len(),
            forall|k: int| from <= k < i ==> digit_char(s@[k]),
        decreases to - i,
    {
        let c = s.get_char(i);
        if !('0' <= c && c <= '9') {
            assert(s@.subrange(from as int, to as int)[i - from] == s@[i as int]);
            return false;
        }
        i = i + 1;
    }
    proof {
        assert(forall|k: int|
            0 <= k < to - from ==> digit_char(#[trigger] s@.subrange(from as int, to as int)[k]));
    }
    true
}

/// Decide `valid_semver` on a concrete version string: find the two dots
/// and check the three digit runs.
fn check_semver(v: &str) -> (r: bool)
    ensures
        r == valid_semver(v@),
{
    let n = v.unicode_len();
    let mut i: usize = 0;
    while i < n && v.get_char(i) != '.'
        invariant
            i <= n,
            n == v@.len(),
            forall|k: int| 0 <= k < i ==> v@[k] != '.',
        decreases n - i,
    {
        i = i + 1;
    }
    proof {
        lemma_dot_end_at(v@, 0, i as int);
    }
    if i == n {
        return false;
    }
    let a = i;
    let mut j: usize = a + 1;
    while j < n && v.get_char(j) != '.'
        invariant
            a + 1 <= j <= n,
            n == v@.len(),
            forall|k: int| a + 1 <= k < j ==> v@[k] != '.',
        decreases n - j,
    {
        j = j + 1;
    }
    proof {
        lemma_dot_end_at(v@, a + 1, j as int);
    }
    if j == n {
        return false;
    }
    let d1 = check_digits(v, 0, a);
    let d2 = check_digits(v, a + 1, j);
    let d3 = check_digits(v, j + 1, n);
    d1 && d2 && d3
}

/// Whether every entry path is safe.
fn check_entry_paths(entry: &Vec<(String, String)>) -> (r: bool)
    ensures
        r == (forall|i: int|
            0 <= i < entry@.len() ==> safe_relative_path(#[trigger] entry@[i].1@)),
{
    let n = entry.len();
    let mut i: usize = 0;
    while i < n
        invariant
            i <= n,
            n == entry@.len(),
            forall|k: int| 0 <= k < i ==> safe_relative_path(#[trigger] entry@[k].1@),
        decreases n - i,
    {
        if !is_safe_relative_path(entry[i].1.as_str()) {
            return false;
        }
        i = i + 1;
    }
    true
}

/// Whether some entry covers the platform.
fn check_platform_covered(entry: &Vec<(String, String)>, platform: &str) -> (r: bool)
    ensures
        r == (exists|i: int| 0 <= i < entry@.len() && #[trigger] entry@[i].0@ == platform@),
{
    let n = entry.len();
    let mut i: usize = 0;
    while i < n
        invariant
            i <= n,
            n == entry@.len(),
            forall|k: int| 0 <= k < i ==> #[trigger] entry@[k].0@ != platform@,
        decreases n - i,
    {
        if str_equal(entry[i].0.as_str(), platform) {
            return true;
        }
        i = i + 1;
    }
    false
}

/// Whether every declared permission is in the whitelist.
fn check_permissions(permissions: &Vec<String>) -> (r: bool)
    ensures
        r == (forall|i: int|
            0 <= i < permissions@.len() ==> allowed_permission(#[trigger] permissions@[i]@)),
{
    let n = permissions.len();
    let mut i: usize = 0;
    while i < n
        invariant
            i <= n,
            n == permissions@.len(),
            forall|k: int| 0 <= k < i ==> allowed_permission(#[trigger] permissions@[k]@),
        decreases n - i,
    {
        if !is_allowed_permission(permissions[i].as_str()) {
            return false;
        }
        i = i + 1;
    }
    true
}

/// Whether the external-network permission is declared.
fn has_net_permission(permissions: &Vec<String>) -> (r: bool)
    ensures
        r == (exists|i: int| 0 <= i < permissions@.len() && #[trigger] permissions@[i]@ == "net:external"@),
{
    let n = permissions.len();
    let mut i: usize = 0;
    while i < n
        invariant
            i <= n,
            n == permissions@.len(),
            forall|k: int| 0 <= k < i ==> #[trigger] permissions@[k]@ != "net:external"@,
        decreases n - i,
    {
        if str_equal(permissions[i].as_str(), "net:external") {
            return true;
        }
        i = i + 1;
    }
    false
}

} // verus!
