//! OpenCode Zen support: URL recognition, API-root derivation, manual session headers and a
//! cache of automatically created sessions.
use vstd::prelude::*;

use crate::text::{
    concat2, ascii_lower, chars_eq, chars_of, concat3, eq_ignore_ascii_case, has_suffix, is_blank,
    push_chars, push_str, seq_contains, slice_chars, str_contains, str_eq,
    str_eq_ignore_ascii_case, string_of, to_ascii_lower, trim, trim_chars, trim_str, utf8_len,
    utf8_prefix, ends_with_chars, contains_chars, views,
};

use crate::ext::{
    http_header_name_valid, http_header_value_valid, json_string_at, json_string_at_pointer,
    parses_as_header_name, parses_as_header_value,
};

verus! {

/// Header that carries an OpenCode session id.
pub const OPENCODE_SESSION_HEADER: &'static str = "x-opencode-session";

/// How long an automatically created session is reused, in milliseconds.
pub const OPENCODE_ZEN_SESSION_TTL_MS: u64 = 1_800_000;

/// The URL points at hosted OpenCode Zen.
pub open spec fn is_zen_url_spec(url: Seq<char>) -> bool {
    seq_contains(ascii_lower(url), "opencode.ai/zen"@)
}

/// Whether a base URL points at hosted OpenCode Zen (ASCII case is ignored).
pub fn is_opencode_zen_url(url: &str) -> (b: bool)
    ensures
        b == is_zen_url_spec(url@),
{
    let v = chars_of(url);
    let lower = to_ascii_lower(&v);
    let pat = chars_of("opencode.ai/zen");
    contains_chars(&lower, &pat)
}

// ───────────────────────────── API root ─────────────────────────────

/// `s` without trailing `/` chars (`trim_end_matches('/')`).
pub open spec fn strip_trailing_slashes(s: Seq<char>) -> Seq<char>
    decreases s.len(),
{
    if s.len() > 0 && s.last() == '/' {
        strip_trailing_slashes(s.drop_last())
    } else {
        s
    }
}

/// Removes trailing `/` chars.
pub fn strip_trailing_slashes_chars(s: &[char]) -> (r: Vec<char>)
    ensures
        r@ == strip_trailing_slashes(s@),
{
    let mut k = s.len();
    assert(s@.subrange(0, s.len() as int) =~= s@);
    while k > 0 && s[k - 1] == '/'
        invariant
            k <= s.len(),
            strip_trailing_slashes(s@) == strip_trailing_slashes(s@.subrange(0, k as int)),
        decreases k,
    {
        assert(s@.subrange(0, k as int).drop_last() =~= s@.subrange(0, k - 1));
        k = k - 1;
    }
    assert(strip_trailing_slashes(s@.subrange(0, k as int)) == s@.subrange(0, k as int));
    assert(s@.subrange(0, s.len() as int) =~= s@);
    slice_chars(s, 0, k)
}

/// Path suffixes removed from a Zen base URL, tried in this order.
pub open spec fn zen_suffixes() -> Seq<Seq<char>> {
    seq![
        "/v1/chat/completions"@,
        "/chat/completions"@,
        "/v1/models"@,
        "/go/v1"@,
        "/go"@,
        "/v1"@,
    ]
}

/// Index of the first suffix of `zen_suffixes` that `root` ends with (ignoring ASCII case)
/// while being longer than it.
pub open spec fn first_zen_suffix(root: Seq<char>) -> Option<int> {
    if exists|i: int|
        0 <= i < 6 && root.len() > zen_suffixes()[i].len() && has_suffix(
            ascii_lower(root),
            zen_suffixes()[i],
        ) {
        Some(
            choose|i: int|
                0 <= i < 6 && root.len() > zen_suffixes()[i].len() && has_suffix(
                    ascii_lower(root),
                    zen_suffixes()[i],
                ) && forall|j: int|
                    0 <= j < i ==> !(root.len() > zen_suffixes()[j].len() && has_suffix(
                        ascii_lower(root),
                        zen_suffixes()[j],
                    )),
        )
    } else {
        None
    }
}

/// `root` after repeatedly removing the first matching suffix and then trailing slashes.
pub open spec fn zen_root_spec(root: Seq<char>) -> Seq<char>
    decreases root.len(),
{
    match first_zen_suffix(root) {
        None => root,
        Some(i) => if 0 <= i < 6 && zen_suffixes()[i].len() > 0 && zen_suffixes()[i].len()
            < root.len() {
            proof {
                lemma_strip_shorter(root.subrange(0, root.len() - zen_suffixes()[i].len()));
            }
            zen_root_spec(
                strip_trailing_slashes(
                    root.subrange(0, root.len() - zen_suffixes()[i].len()),
                ),
            )
        } else {
            root
        },
    }
}

/// The Zen API root of an OpenAI-compatible base URL.
pub open spec fn zen_api_root_spec(base_url: Seq<char>) -> Seq<char> {
    zen_root_spec(strip_trailing_slashes(trim(base_url)))
}

/// Stripping slashes never lengthens a text.
pub proof fn lemma_strip_shorter(s: Seq<char>)
    ensures
        strip_trailing_slashes(s).len() <= s.len(),
    decreases s.len(),
{
    if s.len() > 0 && s.last() == '/' {
        lemma_strip_shorter(s.drop_last());
    }
}

/// The suffix list as executable strings.
fn zen_suffix_list() -> (v: Vec<Vec<char>>)
    ensures
        v@.len() == 6,
        forall|i: int| 0 <= i < 6 ==> (#[trigger] v@[i])@ == zen_suffixes()[i],
{
    let mut v: Vec<Vec<char>> = Vec::new();
    v.push(chars_of("/v1/chat/completions"));
    v.push(chars_of("/chat/completions"));
    v.push(chars_of("/v1/models"));
    v.push(chars_of("/go/v1"));
    v.push(chars_of("/go"));
    v.push(chars_of("/v1"));
    v
}

/// Index of the first suffix that `root` ends with (ASCII case ignored) while longer than it.
fn matching_suffix(root: &Vec<char>, suffixes: &Vec<Vec<char>>) -> (r: Option<usize>)
    requires
        suffixes@.len() == 6,
        forall|i: int| 0 <= i < 6 ==> (#[trigger] suffixes@[i])@ == zen_suffixes()[i],
    ensures
        match r {
            Some(i) => i < 6 && root@.len() > zen_suffixes()[i as int].len() && has_suffix(
                ascii_lower(root@),
                zen_suffixes()[i as int],
            ) && forall|j: int|
                0 <= j < i ==> !(root@.len() > zen_suffixes()[j].len() && has_suffix(
                    ascii_lower(root@),
                    zen_suffixes()[j],
                )),
            None => forall|j: int|
                0 <= j < 6 ==> !(root@.len() > zen_suffixes()[j].len() && has_suffix(
                    ascii_lower(root@),
                    zen_suffixes()[j],
                )),
        },
{
    let lower = to_ascii_lower(root);
    assert(lower@.len() == root@.len());
    let mut i: usize = 0;
    while i < 6
        invariant
            i <= 6,
            suffixes@.len() == 6,
            forall|j: int| 0 <= j < 6 ==> (#[trigger] suffixes@[j])@ == zen_suffixes()[j],
            lower@ == ascii_lower(root@),
            forall|j: int|
                0 <= j < i ==> !(root@.len() > zen_suffixes()[j].len() && has_suffix(
                    ascii_lower(root@),
                    zen_suffixes()[j],
                )),
        decreases 6 - i,
    {
        let suf = &suffixes[i];
        assert(suf@ == zen_suffixes()[i as int]);
        if root.len() > suf.len() && ends_with_chars(&lower, suf) {
            return Some(i);
        }
        i = i + 1;
    }
    None
}

/// Derives the Zen API root from an OpenAI-compatible base URL
/// (`https://opencode.ai/zen/go/v1` becomes `https://opencode.ai/zen`).
pub fn zen_api_root(base_url: &str) -> (r: String)
    ensures
        r@ == zen_api_root_spec(base_url@),
{
    proof {
        reveal_strlit("/v1/chat/completions");
        reveal_strlit("/chat/completions");
        reveal_strlit("/v1/models");
        reveal_strlit("/go/v1");
        reveal_strlit("/go");
        reveal_strlit("/v1");
    }
    let v = chars_of(base_url);
    let t = trim_chars(&v);
    let mut root = strip_trailing_slashes_chars(&t);
    let suffixes = zen_suffix_list();
    loop
        invariant
            suffixes@.len() == 6,
            forall|i: int| 0 <= i < 6 ==> (#[trigger] suffixes@[i])@ == zen_suffixes()[i],
            zen_root_spec(root@) == zen_api_root_spec(base_url@),
            forall|i: int| 0 <= i < 6 ==> zen_suffixes()[i].len() > 0,
        decreases root@.len(),
    {
        let found = matching_suffix(&root, &suffixes);
        match found {
            None => {
                assert(first_zen_suffix(root@) is None);
                return string_of(&root);
            },
            Some(i) => {
                let ghost old_root = root@;
                assert(first_zen_suffix(old_root) == Some(i as int)) by {
                    let w = choose|w: int|
                        0 <= w < 6 && old_root.len() > zen_suffixes()[w].len() && has_suffix(
                            ascii_lower(old_root),
                            zen_suffixes()[w],
                        ) && forall|j: int|
                            0 <= j < w ==> !(old_root.len() > zen_suffixes()[j].len()
                                && has_suffix(ascii_lower(old_root), zen_suffixes()[j]));
                    assert(0 <= i < 6 && old_root.len() > zen_suffixes()[i as int].len()
                        && has_suffix(ascii_lower(old_root), zen_suffixes()[i as int]));
                    if w < i {
                    } else if w > i {
                    }
                };
                let cut = root.len() - suffixes[i].len();
                let head = slice_chars(&root, 0, cut);
                root = strip_trailing_slashes_chars(&head);
                proof {
                    lemma_strip_shorter(head@);
                }
            },
        }
    }
}

/// Session endpoints tried, in order, under a Zen API root.
pub fn zen_session_endpoints(root: &str) -> (v: Vec<String>)
    ensures
        v@.len() == 3,
        v@[0]@ == root@ + "/v1/sessions"@,
        v@[1]@ == root@ + "/sessions"@,
        v@[2]@ == root@ + "/api/sessions"@,
{
    let mut v: Vec<String> = Vec::new();
    v.push(concat2(root, "/v1/sessions"));
    v.push(concat2(root, "/sessions"));
    v.push(concat2(root, "/api/sessions"));
    v
}

/// Cache key of a base URL and API key.
pub open spec fn zen_cache_key_spec(base_url: Seq<char>, api_key: Seq<char>) -> Seq<char> {
    strip_trailing_slashes(trim(base_url)) + "|"@ + trim(api_key)
}

/// Cache key of a base URL and API key.
pub fn zen_cache_key(base_url: &str, api_key: &str) -> (r: String)
    ensures
        r@ == zen_cache_key_spec(base_url@, api_key@),
{
    let b = chars_of(base_url);
    let bt = trim_chars(&b);
    let bs = strip_trailing_slashes_chars(&bt);
    let k = chars_of(api_key);
    let kt = trim_chars(&k);
    let mut r = string_of(&bs);
    push_str(&mut r, "|");
    push_chars(&mut r, &kt);
    r
}

// ───────────────────────────── session cache ─────────────────────────────

/// Sessions created for (base URL, API key) pairs, with their expiry times.
#[derive(Debug)]
pub struct ZenSessionCache {
    entries: Vec<(String, String, u64)>,
}

impl ZenSessionCache {
    /// The cache as a map from key to (session id, expiry time in ms).
    pub closed spec fn view_map(&self) -> Map<Seq<char>, (Seq<char>, u64)> {
        Map::new(
            |k: Seq<char>| exists|i: int| 0 <= i < self.entries@.len() && self.entries@[i].0@ == k,
            |k: Seq<char>|
                {
                    let i = choose|i: int|
                        0 <= i < self.entries@.len() && self.entries@[i].0@ == k;
                    (self.entries@[i].1@, self.entries@[i].2)
                },
        )
    }

    /// No key occurs twice.
    pub closed spec fn wf(&self) -> bool {
        forall|i: int, j: int|
            0 <= i < j < self.entries@.len() ==> self.entries@[i].0@ != self.entries@[j].0@
    }

    /// An empty cache.
    pub fn new() -> (c: ZenSessionCache)
        ensures
            c.wf(),
            c.view_map() == Map::<Seq<char>, (Seq<char>, u64)>::empty(),
    {
        let c = ZenSessionCache { entries: Vec::new() };
        assert(c.view_map() =~= Map::<Seq<char>, (Seq<char>, u64)>::empty());
        c
    }

    fn position(&self, key: &str) -> (r: Option<usize>)
        requires
            self.wf(),
        ensures
            match r {
                Some(i) => i < self.entries@.len() && self.entries@[i as int].0@ == key@,
                None => forall|i: int|
                    0 <= i < self.entries@.len() ==> self.entries@[i].0@ != key@,
            },
    {
        let mut i: usize = 0;
        while i < self.entries.len()
            invariant
                i <= self.entries@.len(),
                forall|j: int| 0 <= j < i ==> self.entries@[j].0@ != key@,
            decreases self.entries.len() - i,
        {
            if str_eq(self.entries[i].0.as_str(), key) {
                return Some(i);
            }
            i = i + 1;
        }
        None
    }

    proof fn lemma_lookup(&self, i: int)
        requires
            self.wf(),
            0 <= i < self.entries@.len(),
        ensures
            self.view_map().contains_key(self.entries@[i].0@),
            self.view_map()[self.entries@[i].0@] == (self.entries@[i].1@, self.entries@[i].2),
    {
        let k = self.entries@[i].0@;
        assert(self.view_map().dom().contains(k));
        let j = choose|j: int| 0 <= j < self.entries@.len() && self.entries@[j].0@ == k;
        if j != i {
            if j < i {
                assert(self.entries@[j].0@ != self.entries@[i].0@);
            } else {
                assert(self.entries@[i].0@ != self.entries@[j].0@);
            }
        }
    }
}

/// The session cached for `key` that is still valid at time `now` (ms).
pub open spec fn cached_session_spec(
    m: Map<Seq<char>, (Seq<char>, u64)>,
    key: Seq<char>,
    now: u64,
) -> Option<Seq<char>> {
    if m.contains_key(key) && m[key].1 > now {
        Some(m[key].0)
    } else {
        None
    }
}

/// Session id cached for the base URL and API key, if it has not expired at `now` (ms).
pub fn cached_zen_session_id(cache: &ZenSessionCache, base_url: &str, api_key: &str, now: u64) -> (r:
    Option<String>)
    requires
        cache.wf(),
    ensures
        match r {
            Some(s) => cached_session_spec(
                cache.view_map(),
                zen_cache_key_spec(base_url@, api_key@),
                now,
            ) == Some(s@),
            None => cached_session_spec(
                cache.view_map(),
                zen_cache_key_spec(base_url@, api_key@),
                now,
            ) is None,
        },
{
    let key = zen_cache_key(base_url, api_key);
    match cache.position(key.as_str()) {
        None => {
            assert(!cache.view_map().contains_key(key@));
            None
        },
        Some(i) => {
            proof {
                cache.lemma_lookup(i as int);
            }
            if cache.entries[i].2 > now {
                Some(cache.entries[i].1.clone())
            } else {
                None
            }
        },
    }
}

/// Caches a session for the base URL and API key until `now + TTL` (saturating).
pub fn store_zen_session_id(
    cache: &mut ZenSessionCache,
    base_url: &str,
    api_key: &str,
    session_id: String,
    now: u64,
)
    requires
        old(cache).wf(),
    ensures
        final(cache).wf(),
        final(cache).view_map() == old(cache).view_map().insert(
            zen_cache_key_spec(base_url@, api_key@),
            (
                session_id@,
                if now as int + OPENCODE_ZEN_SESSION_TTL_MS > u64::MAX {
                    u64::MAX
                } else {
                    (now + OPENCODE_ZEN_SESSION_TTL_MS) as u64
                },
            ),
        ),
{
    let key = zen_cache_key(base_url, api_key);
    let expires_at: u64 = if now > u64::MAX - OPENCODE_ZEN_SESSION_TTL_MS {
        u64::MAX
    } else {
        now + OPENCODE_ZEN_SESSION_TTL_MS
    };
    let ghost old_map = cache.view_map();
    let ghost k = key@;
    let ghost val = (session_id@, expires_at);
    match cache.position(key.as_str()) {
        Some(i) => {
            let ghost old_entries = cache.entries@;
            cache.entries.set(i, (key, session_id, expires_at));
            proof {
                assert(cache.wf()) by {
                    assert forall|a: int, b: int|
                        0 <= a < b < cache.entries@.len() implies cache.entries@[a].0@
                        != cache.entries@[b].0@ by {
                        if a == i {
                            assert(old_entries[a].0@ == k);
                        } else if b == i {
                            assert(old_entries[b].0@ == k);
                        }
                    }
                }
                assert forall|kk: Seq<char>|
                    #[trigger] cache.view_map().contains_key(kk) == old_map.insert(
                        k,
                        val,
                    ).contains_key(kk) by {
                    if old_map.contains_key(kk) {
                        let j = choose|j: int|
                            0 <= j < old_entries.len() && old_entries[j].0@ == kk;
                        if j == i {
                            assert(cache.entries@[j].0@ == kk);
                        } else {
                            assert(cache.entries@[j] == old_entries[j]);
                        }
                    }
                    if cache.view_map().contains_key(kk) {
                        let j = choose|j: int|
                            0 <= j < cache.entries@.len() && cache.entries@[j].0@ == kk;
                        if j != i {
                            assert(old_entries[j] == cache.entries@[j]);
                            assert(old_map.contains_key(kk));
                        }
                    }
                }
                assert forall|kk: Seq<char>|
                    cache.view_map().contains_key(kk) implies #[trigger] cache.view_map()[kk]
                    == old_map.insert(k, val)[kk] by {
                    let j = choose|j: int|
                        0 <= j < cache.entries@.len() && cache.entries@[j].0@ == kk;
                    cache.lemma_lookup(j);
                    if j != i {
                        assert(old_entries[j] == cache.entries@[j]);
                        old(cache).lemma_lookup(j);
                    }
                }
                assert(cache.view_map() =~= old_map.insert(k, val));
            }
        },
        None => {
            let ghost old_entries = cache.entries@;
            cache.entries.push((key, session_id, expires_at));
            proof {
                let n = old_entries.len() as int;
                assert(cache.wf()) by {
                    assert forall|a: int, b: int|
                        0 <= a < b < cache.entries@.len() implies cache.entries@[a].0@
                        != cache.entries@[b].0@ by {
                        if b == n {
                            assert(old_entries[a].0@ != k);
                        } else {
                            assert(cache.entries@[a] == old_entries[a]);
                            assert(cache.entries@[b] == old_entries[b]);
                        }
                    }
                }
                assert forall|kk: Seq<char>|
                    #[trigger] cache.view_map().contains_key(kk) == old_map.insert(
                        k,
                        val,
                    ).contains_key(kk) by {
                    if old_map.contains_key(kk) {
                        let j = choose|j: int|
                            0 <= j < old_entries.len() && old_entries[j].0@ == kk;
                        assert(cache.entries@[j] == old_entries[j]);
                    }
                    if kk == k {
                        assert(cache.entries@[n].0@ == kk);
                    }
                    if cache.view_map().contains_key(kk) {
                        let j = choose|j: int|
                            0 <= j < cache.entries@.len() && cache.entries@[j].0@ == kk;
                        if j < n {
                            assert(old_entries[j] == cache.entries@[j]);
                            assert(old_map.contains_key(kk));
                        }
                    }
                }
                assert forall|kk: Seq<char>|
                    cache.view_map().contains_key(kk) implies #[trigger] cache.view_map()[kk]
                    == old_map.insert(k, val)[kk] by {
                    let j = choose|j: int|
                        0 <= j < cache.entries@.len() && cache.entries@[j].0@ == kk;
                    cache.lemma_lookup(j);
                    if j < n {
                        assert(old_entries[j] == cache.entries@[j]);
                        old(cache).lemma_lookup(j);
                    }
                }
                assert(cache.view_map() =~= old_map.insert(k, val));
            }
        },
    }
}

/// Forgets the session cached for the base URL and API key.
pub fn invalidate_zen_session(cache: &mut ZenSessionCache, base_url: &str, api_key: &str)
    requires
        old(cache).wf(),
    ensures
        final(cache).wf(),
        final(cache).view_map() == old(cache).view_map().remove(
            zen_cache_key_spec(base_url@, api_key@),
        ),
{
    let key = zen_cache_key(base_url, api_key);
    let ghost old_map = cache.view_map();
    let ghost k = key@;
    match cache.position(key.as_str()) {
        None => {
            assert(!old_map.contains_key(k));
            assert(old_map.remove(k) =~= old_map);
        },
        Some(i) => {
            let ghost old_entries = cache.entries@;
            let _ = cache.entries.remove(i);
            proof {
                assert(cache.entries@ =~= old_entries.remove(i as int));
                assert(cache.wf()) by {
                    assert forall|a: int, b: int|
                        0 <= a < b < cache.entries@.len() implies cache.entries@[a].0@
                        != cache.entries@[b].0@ by {
                        let a0 = if a < i { a } else { a + 1 };
                        let b0 = if b < i { b } else { b + 1 };
                        assert(cache.entries@[a] == old_entries[a0]);
                        assert(cache.entries@[b] == old_entries[b0]);
                    }
                }
                assert forall|kk: Seq<char>|
                    #[trigger] cache.view_map().contains_key(kk) == old_map.remove(k).contains_key(
                        kk,
                    ) by {
                    if cache.view_map().contains_key(kk) {
                        let j = choose|j: int|
                            0 <= j < cache.entries@.len() && cache.entries@[j].0@ == kk;
                        let j0 = if j < i { j } else { j + 1 };
                        assert(cache.entries@[j] == old_entries[j0]);
                        assert(old_entries[j0].0@ != old_entries[i as int].0@);
                        assert(old_map.contains_key(kk));
                    }
                    if old_map.remove(k).contains_key(kk) {
                        let j0 = choose|j: int|
                            0 <= j < old_entries.len() && old_entries[j].0@ == kk;
                        assert(j0 != i);
                        let j = if j0 < i { j0 } else { j0 - 1 };
                        assert(cache.entries@[j] == old_entries[j0]);
                    }
                }
                assert forall|kk: Seq<char>|
                    cache.view_map().contains_key(kk) implies #[trigger] cache.view_map()[kk]
                    == old_map.remove(k)[kk] by {
                    let j = choose|j: int|
                        0 <= j < cache.entries@.len() && cache.entries@[j].0@ == kk;
                    cache.lemma_lookup(j);
                    let j0 = if j < i { j } else { j + 1 };
                    assert(cache.entries@[j] == old_entries[j0]);
                    old(cache).lemma_lookup(j0);
                }
                assert(cache.view_map() =~= old_map.remove(k));
            }
        },
    }
}

/// A session stored at time `now` is found for the same base URL and key at any time before
/// it expires.
pub proof fn lemma_store_then_lookup(
    m: Map<Seq<char>, (Seq<char>, u64)>,
    base_url: Seq<char>,
    api_key: Seq<char>,
    session: Seq<char>,
    expires_at: u64,
    later: u64,
)
    requires
        later < expires_at,
    ensures
        cached_session_spec(
            m.insert(zen_cache_key_spec(base_url, api_key), (session, expires_at)),
            zen_cache_key_spec(base_url, api_key),
            later,
        ) == Some(session),
{
}

/// After invalidation nothing is found for the same base URL and key.
pub proof fn lemma_invalidate_then_lookup(
    m: Map<Seq<char>, (Seq<char>, u64)>,
    base_url: Seq<char>,
    api_key: Seq<char>,
    now: u64,
)
    ensures
        cached_session_spec(
            m.remove(zen_cache_key_spec(base_url, api_key)),
            zen_cache_key_spec(base_url, api_key),
            now,
        ) is None,
{
}

// ───────────────────────────── errors and manual sessions ─────────────────────────────

/// An error payload reports an unusable or absent OpenCode session.
pub open spec fn missing_session_spec(body: Seq<char>) -> bool {
    let l = ascii_lower(body);
    ||| seq_contains(l, "missing"@) && seq_contains(l, "session"@)
    ||| seq_contains(l, "missingsessionid"@)
    ||| seq_contains(l, "invalid"@) && seq_contains(l, "x-opencode-session"@)
    ||| seq_contains(l, "expired"@) && seq_contains(l, "x-opencode-session"@)
}

/// Whether an LLM error payload reports an unusable or absent OpenCode session.
pub fn is_missing_opencode_session_error(body: &str) -> (b: bool)
    ensures
        b == missing_session_spec(body@),
{
    let v = chars_of(body);
    let l = to_ascii_lower(&v);
    let missing = chars_of("missing");
    let session = chars_of("session");
    let msid = chars_of("missingsessionid");
    let invalid = chars_of("invalid");
    let header = chars_of("x-opencode-session");
    let expired = chars_of("expired");
    (contains_chars(&l, &missing) && contains_chars(&l, &session)) || contains_chars(&l, &msid)
        || (contains_chars(&l, &invalid) && contains_chars(&l, &header)) || (contains_chars(
        &l,
        &expired,
    ) && contains_chars(&l, &header))
}

/// Entry `i` of the configured headers names the session header and has a non-blank value.
pub open spec fn is_session_entry(entry: (String, String)) -> bool {
    eq_ignore_ascii_case(trim(entry.0@), OPENCODE_SESSION_HEADER@) && trim(entry.1@).len() > 0
}

/// The manually configured session: the trimmed value of the first usable session header.
pub open spec fn configured_session_spec(configured: Option<Seq<(String, String)>>) -> Option<
    Seq<char>,
> {
    match configured {
        None => None,
        Some(entries) => if exists|i: int| 0 <= i < entries.len() && is_session_entry(entries[i]) {
            let i = choose|i: int|
                0 <= i < entries.len() && is_session_entry(entries[i]) && forall|j: int|
                    0 <= j < i ==> !is_session_entry(entries[j]);
            Some(trim(entries[i].1@))
        } else {
            None
        },
    }
}

/// Returns the manually configured OpenCode session, if present.
pub fn configured_opencode_session_id(configured: Option<&Vec<(String, String)>>) -> (r: Option<
    String,
>)
    ensures
        match r {
            Some(s) => configured_session_spec(
                match configured {
                    Some(c) => Some(c@),
                    None => None,
                },
            ) == Some(s@),
            None => configured_session_spec(
                match configured {
                    Some(c) => Some(c@),
                    None => None,
                },
            ) is None,
        },
{
    let entries = match configured {
        None => return None,
        Some(c) => c,
    };
    let mut i: usize = 0;
    while i < entries.len()
        invariant
            i <= entries@.len(),
            configured == Some(entries),
            forall|j: int| 0 <= j < i ==> !is_session_entry(entries@[j]),
        decreases entries.len() - i,
    {
        let name = trim_str(entries[i].0.as_str());
        if str_eq_ignore_ascii_case(name.as_str(), OPENCODE_SESSION_HEADER) {
            let value = trim_str(entries[i].1.as_str());
            if !value.as_str().is_empty() {
                proof {
                    assert(is_session_entry(entries@[i as int]));
                    let w = choose|w: int|
                        0 <= w < entries@.len() && is_session_entry(entries@[w]) && forall|j: int|
                            0 <= j < w ==> !is_session_entry(entries@[j]);
                    if w < i {
                        assert(!is_session_entry(entries@[w]));
                    } else if w > i {
                        assert(!is_session_entry(entries@[i as int]));
                    }
                    assert(w == i);
                    assert(configured_session_spec(Some(entries@)) == Some(value@));
                }
                return Some(value);
            } else {
                assert(!is_session_entry(entries@[i as int]));
            }
        }
        i = i + 1;
    }
    None
}

/// Configured headers that may be applied: both parts trimmed and non-empty, the name
/// neither `authorization` nor `content-type` (ASCII case ignored), and both parts valid in
/// an HTTP header.
pub open spec fn applicable_header(name: Seq<char>, value: Seq<char>) -> bool {
    &&& trim(name).len() > 0
    &&& trim(value).len() > 0
    &&& !eq_ignore_ascii_case(trim(name), "authorization"@)
    &&& !eq_ignore_ascii_case(trim(name), "content-type"@)
    &&& http_header_name_valid(trim(name))
    &&& http_header_value_valid(trim(value))
}

/// The trimmed configured headers that may be applied, in order.
pub open spec fn applicable_headers(entries: Seq<(String, String)>) -> Seq<(Seq<char>, Seq<char>)>
    decreases entries.len(),
{
    if entries.len() == 0 {
        Seq::empty()
    } else {
        let e = entries.last();
        applicable_headers(entries.drop_last()) + if applicable_header(e.0@, e.1@) {
            seq![(trim(e.0@), trim(e.1@))]
        } else {
            Seq::empty()
        }
    }
}

/// Views of a sequence of string pairs.
pub open spec fn pair_views(v: Seq<(String, String)>) -> Seq<(Seq<char>, Seq<char>)> {
    v.map_values(|p: (String, String)| (p.0@, p.1@))
}

/// The configured headers that may be applied, trimmed and in order.
pub fn applicable_configured_headers(configured: Option<&Vec<(String, String)>>) -> (r: Vec<
    (String, String),
>)
    ensures
        pair_views(r@) == match configured {
            Some(c) => applicable_headers(c@),
            None => Seq::empty(),
        },
{
    let mut r: Vec<(String, String)> = Vec::new();
    let entries = match configured {
        None => {
            assert(pair_views(r@) =~= Seq::<(Seq<char>, Seq<char>)>::empty());
            return r;
        },
        Some(c) => c,
    };
    let mut i: usize = 0;
    while i < entries.len()
        invariant
            i <= entries@.len(),
            pair_views(r@) == applicable_headers(entries@.subrange(0, i as int)),
        decreases entries.len() - i,
    {
        let name = trim_str(entries[i].0.as_str());
        let value = trim_str(entries[i].1.as_str());
        let ghost prev = pair_views(r@);
        assert(entries@.subrange(0, i + 1).drop_last() =~= entries@.subrange(0, i as int));
        assert(entries@.subrange(0, i + 1).last() == entries@[i as int]);
        if !name.as_str().is_empty() && !value.as_str().is_empty() && !str_eq_ignore_ascii_case(
            name.as_str(),
            "authorization",
        ) && !str_eq_ignore_ascii_case(name.as_str(), "content-type") && parses_as_header_name(
            name.as_str(),
        ) && parses_as_header_value(value.as_str()) {
            r.push((name, value));
            assert(pair_views(r@) =~= prev.push((trim(entries@[i as int].0@), trim(entries@[i as int].1@))));
        }
        i = i + 1;
    }
    assert(entries@.subrange(0, entries.len() as int) =~= entries@);
    r
}

/// `trim(body)`, cut to 500 bytes with an ellipsis appended when longer.
pub open spec fn truncated_error_body(body: Seq<char>) -> Seq<char> {
    let t = trim(body);
    if utf8_len(t) <= 500 {
        t
    } else {
        t.subrange(0, choose|k: int| 0 <= k <= t.len() && utf8_len(t.subrange(0, k)) == 500)
            + "…"@
    }
}

/// The trimmed body can be cut at byte 500 without splitting a char.
pub open spec fn error_body_cut_ok(body: Seq<char>) -> bool {
    let t = trim(body);
    utf8_len(t) <= 500 || exists|k: int| 0 <= k <= t.len() && utf8_len(t.subrange(0, k)) == 500
}

/// Shortens an error body for display: trimmed, and cut to 500 bytes plus an ellipsis.
pub fn truncate_error_body(body: &str) -> (r: String)
    requires
        error_body_cut_ok(body@),
    ensures
        r@ == truncated_error_body(body@),
{
    let v = chars_of(body);
    let t = trim_chars(&v);
    let (k, bytes) = utf8_prefix(&t, 500);
    if k == t.len() {
        assert(t@.subrange(0, k as int) =~= t@);
        return string_of(&t);
    }
    proof {
        assert(t@.subrange(0, t.len() as int) =~= t@);
        if k + 1 < t.len() {
            crate::codex::lemma_utf8_len_strict(t@, k + 1, t.len() as int);
        }
        let w = choose|w: int| 0 <= w <= t@.len() && utf8_len(t@.subrange(0, w)) == 500;
        if w < k {
            crate::codex::lemma_utf8_len_strict(t@, w, k as int);
        } else if w > k + 1 {
            crate::codex::lemma_utf8_len_strict(t@, k + 1, w);
        }
        assert(w == k);
    }
    let head = slice_chars(&t, 0, k);
    let mut r = string_of(&head);
    push_str(&mut r, "…");
    r
}


// ───────────────────────────── session creation ─────────────────────────────

/// Where a session id may stand in the reply of a session endpoint, in the order they are
/// tried.
pub open spec fn session_id_pointers() -> Seq<Seq<char>> {
    seq![
        "/id"@,
        "/session_id"@,
        "/sessionId"@,
        "/session/id"@,
        "/session/session_id"@,
        "/data/id"@,
        "/data/session_id"@,
    ]
}

/// The first of the places, from the `k`-th on, that holds a string which is not blank,
/// trimmed.
pub open spec fn session_id_from(body: Seq<char>, k: int) -> Option<Seq<char>>
    decreases session_id_pointers().len() - k,
{
    if k < 0 || k >= session_id_pointers().len() {
        None
    } else {
        match json_string_at(body, session_id_pointers()[k]) {
            Some(id) => if trim(id).len() > 0 {
                Some(trim(id))
            } else {
                session_id_from(body, k + 1)
            },
            None => session_id_from(body, k + 1),
        }
    }
}

/// The session id of a session endpoint's reply.
pub fn parse_zen_session_id(body: &str) -> (r: Option<String>)
    ensures
        match r {
            Some(id) => session_id_from(body@, 0) == Some(id@),
            None => session_id_from(body@, 0) is None,
        },
{
    let mut pointers: Vec<&str> = Vec::new();
    pointers.push("/id");
    pointers.push("/session_id");
    pointers.push("/sessionId");
    pointers.push("/session/id");
    pointers.push("/session/session_id");
    pointers.push("/data/id");
    pointers.push("/data/session_id");
    assert(pointers@.map_values(|p: &str| p@) =~= session_id_pointers());
    let mut k: usize = 0;
    while k < pointers.len()
        invariant
            k <= pointers@.len(),
            pointers@.map_values(|p: &str| p@) == session_id_pointers(),
            session_id_from(body@, 0) == session_id_from(body@, k as int),
        decreases pointers.len() - k,
    {
        assert(pointers@[k as int]@ == session_id_pointers()[k as int]);
        match json_string_at_pointer(body, pointers[k]) {
            Some(id) => {
                let t = trim_str(id.as_str());
                if !t.as_str().is_empty() {
                    return Some(t);
                }
            },
            None => {},
        }
        k = k + 1;
    }
    None
}

/// What one session endpoint answered.
#[derive(Debug)]
pub enum ZenSessionReply {
    /// An HTTP answer: whether its status is a success, the status as shown, and the body.
    Answer { success: bool, status: String, body: String },
    /// The request failed; the text says how.
    RequestError(String),
}

/// The note kept about an endpoint that gave no session.
pub open spec fn attempt_note(endpoint: Seq<char>, reply: ZenSessionReply) -> Seq<char> {
    match reply {
        ZenSessionReply::Answer { success, status, body } => if success {
            endpoint + ": HTTP "@ + status@ + " without a parsable session id"@
        } else {
            endpoint + ": HTTP "@ + status@ + " "@ + truncated_error_body(body@)
        },
        ZenSessionReply::RequestError(e) => endpoint + ": request error "@ + e@,
    }
}

/// The session an endpoint's answer gives (a success whose body holds an id), or the note
/// about the attempt.
pub fn zen_session_attempt(endpoint: &str, reply: ZenSessionReply) -> (r: Result<String, String>)
    requires
        reply matches ZenSessionReply::Answer { success, body, .. } ==> success || error_body_cut_ok(body@),
    ensures
        match reply {
            ZenSessionReply::Answer { success, body, .. } => if success && session_id_from(body@, 0) is Some {
                r matches Ok(id) && session_id_from(body@, 0) == Some(id@)
            } else {
                r matches Err(n) && n@ == attempt_note(endpoint@, reply)
            },
            ZenSessionReply::RequestError(_) => r matches Err(n) && n@ == attempt_note(endpoint@, reply),
        },
{
    match reply {
        ZenSessionReply::Answer { success, status, body } => {
            if success {
                match parse_zen_session_id(body.as_str()) {
                    Some(id) => Ok(id),
                    None => {
                        let mut n = concat3(endpoint, ": HTTP ", status.as_str());
                        push_str(&mut n, " without a parsable session id");
                        Err(n)
                    },
                }
            } else {
                let mut n = concat3(endpoint, ": HTTP ", status.as_str());
                push_str(&mut n, " ");
                push_str(&mut n, truncate_error_body(body.as_str()).as_str());
                Err(n)
            }
        },
        ZenSessionReply::RequestError(e) => {
            let mut n = concat2(endpoint, ": request error ");
            push_str(&mut n, e.as_str());
            Err(n)
        },
    }
}

/// The answer when no endpoint gave a session: the attempts, and where to set a session by
/// hand.
pub fn zen_session_failure(notes: &Vec<String>) -> (r: String)
    ensures
        r@ == "Не удалось создать OpenCode Zen-сессию ("@ + crate::codex::join(views(notes@), "; "@)
            + "). Укажите действующую сессию вручную в дополнительных заголовках Custom-профиля: x-opencode-session."@,
{
    let joined = crate::codex::join_strings(notes, "; ");
    concat3(
        "Не удалось создать OpenCode Zen-сессию (",
        joined.as_str(),
        "). Укажите действующую сессию вручную в дополнительных заголовках Custom-профиля: x-opencode-session.",
    )
}

/// Headers of a session request: the JSON content type and, for a key that is not blank,
/// the trimmed key as bearer token.
pub open spec fn session_request_headers_spec(api_key: Seq<char>) -> Seq<(Seq<char>, Seq<char>)> {
    seq![("content-type"@, "application/json"@)] + (if trim(api_key).len() > 0 {
        seq![("authorization"@, "Bearer "@ + trim(api_key))]
    } else {
        Seq::empty()
    })
}

/// Headers of a session request.
pub fn zen_session_request_headers(api_key: &str) -> (r: Vec<(String, String)>)
    ensures
        crate::request::header_views(r@) == session_request_headers_spec(api_key@),
{
    let mut hs: Vec<(String, String)> = Vec::new();
    crate::request::push_header(&mut hs, "content-type", "application/json");
    let key = trim_str(api_key);
    if !key.as_str().is_empty() {
        let bearer = concat2("Bearer ", key.as_str());
        crate::request::push_header(&mut hs, "authorization", bearer.as_str());
    }
    assert(crate::request::header_views(hs@) =~= session_request_headers_spec(api_key@));
    hs
}

} // verus!
