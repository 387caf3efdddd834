//! Application-side shared state, modelled as plain values: the AI-proxy
//! key cache and abort flags, the file paths handed over by the operating
//! system at startup, and the platform description.  The concurrency
//! wrappers (locks, atomics) around these values live outside the library;
//! the lookup and update rules on them are verified here.

use vstd::prelude::*;

use crate::text::str_equal;

verus! {

/// The key prefix under which AI provider keys are cached.
pub open spec fn ai_key_prefix() -> Seq<char> {
    "ai-key:"@
}

/// Look an entry up in an association list where the latest insertion
/// wins: the value beside the last matching key.
pub open spec fn lookup_last(s: Seq<(Seq<char>, Seq<char>)>, k: Seq<char>) -> Option<Seq<char>>
    decreases s.len(),
{
    if s.len() == 0 {
        None
    } else if s.last().0 == k {
        Some(s.last().1)
    } else {
        lookup_last(s.drop_last(), k)
    }
}

/// The character views of a list of string pairs.
pub open spec fn pair_views(s: Seq<(String, String)>) -> Seq<(Seq<char>, Seq<char>)> {
    s.map_values(|p: (String, String)| (p.0@, p.1@))
}

/// State of the AI request proxy: the abort flags of in-flight requests,
/// the in-memory mirror of the stored secrets, and whether that mirror has
/// been filled.
pub struct AIProxyState {
    /// Request identifiers mapped to their abort flags.
    pub abort_flags: Vec<(String, bool)>,
    /// Cache-key/secret pairs; a later pair overrides an earlier one.
    pub key_cache: Vec<(String, String)>,
    /// Whether the secrets have been loaded into `key_cache`.
    pub secrets_loaded: bool,
}

impl AIProxyState {
    /// A fresh proxy state: nothing in flight, nothing cached, secrets not
    /// yet loaded.
    pub fn new() -> (r: AIProxyState)
        ensures
            r.abort_flags@.len() == 0,
            r.key_cache@.len() == 0,
            !r.secrets_loaded,
    {
        AIProxyState { abort_flags: Vec::new(), key_cache: Vec::new(), secrets_loaded: false }
    }

    /// Absorb the secrets read from the backing store into the cache, once:
    /// a second call changes nothing.  Pairs arriving later override
    /// earlier ones, and all of them override what was cached before.
    pub fn absorb_secrets(&mut self, entries: Vec<(String, String)>)
        ensures
            final(self).secrets_loaded,
            final(self).abort_flags == old(self).abort_flags,
            old(self).secrets_loaded ==> final(self).key_cache == old(self).key_cache,
            !old(self).secrets_loaded ==> pair_views(final(self).key_cache@) == pair_views(
                old(self).key_cache@,
            ) + pair_views(entries@),
    {
        if self.secrets_loaded {
            return ;
        }
        self.secrets_loaded = true;
        let n = entries.len();
        let mut i: usize = 0;
        let ghost base = pair_views(self.key_cache@);
        proof {
            assert(pair_views(entries@).take(0) =~= Seq::<(Seq<char>, Seq<char>)>::empty());
            assert(base + pair_views(entries@).take(0) =~= base);
        }
        while i < n
            invariant
                i <= n,
                n == entries@.len(),
                self.secrets_loaded,
                self.abort_flags == old(self).abort_flags,
                pair_views(self.key_cache@) == base + pair_views(entries@).take(i as int),
            decreases n - i,
        {
            let ghost prev = pair_views(self.key_cache@);
            let k = entries[i].0.clone();
            let v = entries[i].1.clone();
            self.key_cache.push((k, v));
            proof {
                assert(pair_views(self.key_cache@) =~= prev.push(
                    (entries@[i as int].0@, entries@[i as int].1@),
                ));
                assert(pair_views(entries@).take(i + 1) =~= pair_views(entries@).take(
                    i as int,
                ).push((entries@[i as int].0@, entries@[i as int].1@)));
            }
            i = i + 1;
        }
        proof {
            assert(pair_views(entries@).take(n as int) =~= pair_views(entries@));
        }
    }

    /// Find the secret cached under a key.
    fn cache_get(&self, key: &str) -> (r: Option<String>)
        ensures
            match r {
                Some(v) => lookup_last(pair_views(self.key_cache@), key@) == Some(v@),
                None => lookup_last(pair_views(self.key_cache@), key@) is None,
            },
    {
        let n = self.key_cache.len();
        let mut i: usize = n;
        proof {
            assert(pair_views(self.key_cache@).take(n as int) =~= pair_views(self.key_cache@));
        }
        while i > 0
            invariant
                i <= n,
                n == self.key_cache@.len(),
                lookup_last(pair_views(self.key_cache@), key@) == lookup_last(
                    pair_views(self.key_cache@).take(i as int),
                    key@,
                ),
            decreases i,
        {
            let ghost pre = pair_views(self.key_cache@).take(i as int);
            if str_equal(self.key_cache[i - 1].0.as_str(), key) {
                proof {
                    assert(pre.last() == (self.key_cache@[i - 1].0@, self.key_cache@[i - 1].1@));
                }
                return Some(self.key_cache[i - 1].1.clone());
            }
            proof {
                assert(pre.drop_last() =~= pair_views(self.key_cache@).take(i - 1));
            }
            i = i - 1;
        }
        proof {
            assert(pair_views(self.key_cache@).take(0) =~= Seq::<(Seq<char>, Seq<char>)>::empty());
        }
        None
    }

    /// What `resolve_api_key` returns: the override when it is usable, the
    /// cached secret under `prefix + config_id` otherwise, and the empty
    /// string when neither exists (a provider that needs no key).
    pub open spec fn resolved_key_spec(
        &self,
        config_id: Seq<char>,
        prefix: Seq<char>,
        over: Option<Seq<char>>,
    ) -> Seq<char> {
        if over matches Some(o) && o.len() > 0 && o != "***"@ {
            over.unwrap()
        } else {
            match lookup_last(pair_views(self.key_cache@), prefix + config_id) {
                Some(v) => v,
                None => Seq::empty(),
            }
        }
    }

    /// Resolve the API key for a request: an explicit override wins unless
    /// it is empty or the masked placeholder; otherwise the key cached
    /// under the prefixed configuration id; otherwise empty.
    pub fn resolve_api_key(
        &self,
        config_id: &str,
        key_prefix: Option<&str>,
        api_key_override: Option<&str>,
    ) -> (r: String)
        ensures
            r@ == self.resolved_key_spec(
                config_id@,
                match key_prefix {
                    Some(p) => p@,
                    None => ai_key_prefix(),
                },
                match api_key_override {
                    Some(o) => Some(o@),
                    None => None,
                },
            ),
    {
        if let Some(key) = api_key_override {
            if key.unicode_len() > 0 && !str_equal(key, "***") {
                return key.to_owned();
            }
        }
        let mut cache_key = match key_prefix {
            Some(p) => p.to_owned(),
            None => "ai-key:".to_owned(),
        };
        cache_key.push_str(config_id);
        match self.cache_get(cache_key.as_str()) {
            Some(v) => v,
            None => String::new(),
        }
    }
}

impl Default for AIProxyState {
    /// The same empty state `new` builds.
    fn default() -> (r: AIProxyState)
        ensures
            r.abort_flags@.len() == 0,
            r.key_cache@.len() == 0,
            !r.secrets_loaded,
    {
        AIProxyState::new()
    }
}

/// File paths requested to be opened through the operating system (file
/// association or command-line arguments) before the main window was
/// ready.
pub struct OpenedFiles(pub Vec<String>);

/// Window labels mapped to the file path each window opens when it mounts;
/// a later pair overrides an earlier one.
pub struct PendingFiles(pub Vec<(String, String)>);

/// Whether the main window has asked for its startup file, i.e. the
/// frontend is ready.
pub struct MainWindowReady(pub bool);

/// The character views of the pending-file pairs.
pub open spec fn pending_views(p: PendingFiles) -> Seq<(Seq<char>, Seq<char>)> {
    pair_views(p.0@)
}

/// Hand a window the file it should open, if any: a pending entry for its
/// label is removed and returned; otherwise the main window takes the
/// first startup file and marks itself ready; other windows get nothing.
pub fn get_opened_file(
    opened: &OpenedFiles,
    pending: &mut PendingFiles,
    ready: &mut MainWindowReady,
    label: &str,
) -> (r: Option<String>)
    ensures
        ({
            let views = pending_views(*old(pending));
            match lookup_last(views, label@) {
                Some(v) => {
                    &&& r matches Some(s) && s@ == v
                    &&& *final(ready) == *old(ready)
                    &&& exists|j: int|
                        0 <= j < views.len() && views[j] == (label@, v) && pending_views(
                            *final(pending),
                        ) == views.remove(j)
                },
                None => {
                    &&& *final(pending) == *old(pending)
                    &&& if label@ == "main"@ {
                        final(ready).0 && (match r {
                            Some(s) => opened.0@.len() > 0 && s@ == opened.0@[0]@,
                            None => opened.0@.len() == 0,
                        })
                    } else {
                        r is None && *final(ready) == *old(ready)
                    }
                },
            }
        }),
{
    let n = pending.0.len();
    let mut i: usize = n;
    proof {
        assert(pending_views(*pending).take(n as int) =~= pending_views(*pending));
    }
    while i > 0
        invariant
            i <= n,
            n == pending.0@.len(),
            *pending == *old(pending),
            *ready == *old(ready),
            lookup_last(pending_views(*pending), label@) == lookup_last(
                pending_views(*pending).take(i as int),
                label@,
            ),
        decreases i,
    {
        let ghost pre = pending_views(*pending).take(i as int);
        if str_equal(pending.0[i - 1].0.as_str(), label) {
            proof {
                assert(pre.last() == (pending.0@[i - 1].0@, pending.0@[i - 1].1@));
            }
            let ghost views = pending_views(*pending);
            let entry = pending.0.remove(i - 1);
            proof {
                assert(pending_views(*pending) =~= views.remove(i - 1));
            }
            return Some(entry.1);
        }
        proof {
            assert(pre.drop_last() =~= pending_views(*pending).take(i - 1));
        }
        i = i - 1;
    }
    proof {
        assert(pending_views(*pending).take(0) =~= Seq::<(Seq<char>, Seq<char>)>::empty());
    }
    if str_equal(label, "main") {
        ready.0 = true;
        if opened.0.len() > 0 {
            return Some(opened.0[0].clone());
        }
        return None;
    }
    None
}

/// The operating system and architecture the application runs on.
pub struct PlatformInfo {
    pub os: String,
    pub arch: String,
}

/// One entry of a directory listing: Markdown files and directories, with
/// children filled in up to the recursion bound.
pub struct FileEntry {
    pub name: String,
    pub path: String,
    pub is_dir: bool,
    pub children: Option<Vec<FileEntry>>,
}

/// Append the API key to a request URL as the `key` query parameter, as
/// the one provider that authenticates by query string expects; keys are
/// appended with `&` when the URL already has a query, with `?` otherwise.
pub fn url_with_key_param(url: &str, api_key: &str) -> (r: String)
    ensures
        r@ == url@ + (if url@.contains('?') {
            "&key="@
        } else {
            "?key="@
        }) + api_key@,
{
    let n = url.unicode_len();
    let mut has_query = false;
    let mut i: usize = 0;
    while i < n
        invariant
            i <= n,
            n == url@.len(),
            has_query == exists|k: int| 0 <= k < i && url@[k] == '?',
        decreases n - i,
    {
        if url.get_char(i) == '?' {
            has_query = true;
        }
        i = i + 1;
    }
    proof {
        assert(has_query == url@.contains('?'));
    }
    let mut r = url.to_owned();
    if has_query {
        r.push_str("&key=");
    } else {
        r.push_str("?key=");
    }
    r.push_str(api_key);
    proof {
        assert(r@ =~= url@ + (if url@.contains('?') {
            "&key="@
        } else {
            "?key="@
        }) + api_key@);
    }
    r
}

} // verus!
