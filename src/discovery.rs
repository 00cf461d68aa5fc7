use vstd::prelude::*;

use crate::errors::CoreError;
use crate::text::{ends_with, ends_with_spec, str_eq};

verus! {

/// Character-wise lexicographic order: the order of `str` comparison.
pub open spec fn lex_lt(a: Seq<char>, b: Seq<char>) -> bool
    decreases a.len(),
{
    if a.len() == 0 {
        b.len() > 0
    } else if b.len() == 0 {
        false
    } else if a[0] != b[0] {
        a[0] < b[0]
    } else {
        lex_lt(a.drop_first(), b.drop_first())
    }
}

/// Two different strings are ordered one way or the other.
pub proof fn lemma_lex_total(a: Seq<char>, b: Seq<char>)
    requires
        a != b,
    ensures
        lex_lt(a, b) || lex_lt(b, a),
    decreases a.len(),
{
    if a.len() > 0 && b.len() > 0 && a[0] == b[0] {
        if a.drop_first() == b.drop_first() {
            assert(a =~= seq![a[0]] + a.drop_first());
            assert(b =~= seq![b[0]] + b.drop_first());
        }
        lemma_lex_total(a.drop_first(), b.drop_first());
    } else if a.len() == 0 && b.len() == 0 {
        assert(a =~= b);
    } else if a.len() > 0 && b.len() > 0 {
        vstd::utf8::char_u32_cast(a[0], a[0] as u32);
        vstd::utf8::char_u32_cast(b[0], b[0] as u32);
    }
}

/// Whether `a` sorts before `b`.
pub fn str_lt(a: &str, b: &str) -> (r: bool)
    ensures
        r == lex_lt(a@, b@),
{
    let n = a.unicode_len();
    let m = b.unicode_len();
    let mut i: usize = 0;
    assert(a@.subrange(0, n as int) =~= a@);
    assert(b@.subrange(0, m as int) =~= b@);
    loop
        invariant
            n == a@.len(),
            m == b@.len(),
            i <= n,
            i <= m,
            lex_lt(a@, b@) == lex_lt(a@.subrange(i as int, n as int), b@.subrange(i as int, m as int)),
        decreases n - i,
    {
        if i == n {
            return i < m;
        }
        if i == m {
            return false;
        }
        let x = a.get_char(i);
        let y = b.get_char(i);
        if x != y {
            return x < y;
        }
        assert(a@.subrange(i as int, n as int).drop_first() =~= a@.subrange(i + 1, n as int));
        assert(b@.subrange(i as int, m as int).drop_first() =~= b@.subrange(i + 1, m as int));
        i = i + 1;
    }
}

/// The artifacts found for one plugin stem.
#[derive(Clone, Debug, Default)]
pub struct ArtifactSet {
    pub wasm: Option<String>,
    pub cwasm: Option<String>,
}

/// The artifact to load first, and the one to fall back on if it fails.
#[derive(Clone, Debug)]
pub struct PluginArtifacts {
    pub primary: String,
    pub fallback: Option<String>,
}

/// A plugin accepted from a directory listing, not yet instantiated.
#[derive(Clone, Debug)]
pub struct PluginEntry {
    pub name: String,
    pub artifacts: PluginArtifacts,
}

/// Primary and fallback for a set of artifacts: with both present the
/// preferred one is primary and the other the fallback; with one present it
/// is primary alone; with none there is nothing to load.
pub open spec fn choose_artifacts(
    wasm: Option<String>,
    cwasm: Option<String>,
    prefer_precompiled: bool,
) -> Option<PluginArtifacts> {
    match (cwasm, wasm) {
        (Some(c), Some(w)) => if prefer_precompiled {
            Some(PluginArtifacts { primary: c, fallback: Some(w) })
        } else {
            Some(PluginArtifacts { primary: w, fallback: Some(c) })
        },
        (Some(c), None) => Some(PluginArtifacts { primary: c, fallback: None }),
        (None, Some(w)) => Some(PluginArtifacts { primary: w, fallback: None }),
        (None, None) => None,
    }
}

impl ArtifactSet {
    /// Chooses primary and fallback artifacts.
    pub fn into_artifacts(self, prefer_precompiled: bool) -> (r: Option<PluginArtifacts>)
        ensures
            r == choose_artifacts(self.wasm, self.cwasm, prefer_precompiled),
    {
        match (self.cwasm, self.wasm) {
            (Some(c), Some(w)) => if prefer_precompiled {
                Some(PluginArtifacts { primary: c, fallback: Some(w) })
            } else {
                Some(PluginArtifacts { primary: w, fallback: Some(c) })
            },
            (Some(c), None) => Some(PluginArtifacts { primary: c, fallback: None }),
            (None, Some(w)) => Some(PluginArtifacts { primary: w, fallback: None }),
            (None, None) => None,
        }
    }
}

/// The listing holds a file of this name.
pub open spec fn has_file(files: Seq<Seq<char>>, f: Seq<char>) -> bool {
    exists|i: int| 0 <= i < files.len() && files[i] == f
}

/// The stem of a portable (`.wasm`) or precompiled (`.cwasm`) artifact's file
/// name; `None` for any other file, and for a name that is all extension.
pub open spec fn stem_of(f: Seq<char>) -> Option<Seq<char>> {
    if ends_with_spec(f, ".wasm"@) && f.len() > ".wasm"@.len() {
        Some(f.subrange(0, f.len() - ".wasm"@.len()))
    } else if ends_with_spec(f, ".cwasm"@) && f.len() > ".cwasm"@.len() {
        Some(f.subrange(0, f.len() - ".cwasm"@.len()))
    } else {
        None
    }
}

/// A stem is loaded as a plugin when the listing holds an artifact for it and
/// its `.toml` configuration.
pub open spec fn accepted(files: Seq<Seq<char>>, n: Seq<char>) -> bool {
    n.len() > 0 && (has_file(files, n + ".wasm"@) || has_file(files, n + ".cwasm"@)) && has_file(
        files,
        n + ".toml"@,
    )
}

/// The file name of an artifact when the listing holds it.
pub open spec fn file_if_present(files: Seq<Seq<char>>, f: Seq<char>) -> Option<Seq<char>> {
    if has_file(files, f) {
        Some(f)
    } else {
        None
    }
}

/// The view of an optional string.
pub open spec fn opt_view(o: Option<String>) -> Option<Seq<char>> {
    match o {
        Some(s) => Some(s@),
        None => None,
    }
}

/// The artifacts chosen for an accepted stem.
pub open spec fn artifacts_ok(
    files: Seq<Seq<char>>,
    n: Seq<char>,
    prefer_precompiled: bool,
    a: PluginArtifacts,
) -> bool {
    let w = file_if_present(files, n + ".wasm"@);
    let c = file_if_present(files, n + ".cwasm"@);
    if c.is_some() && (prefer_precompiled || w.is_none()) {
        a.primary@ == c.unwrap() && opt_view(a.fallback) == w
    } else {
        a.primary@ == w.unwrap() && opt_view(a.fallback) == (if c.is_some() {
            c
        } else {
            None
        })
    }
}

/// The view of a directory listing.
pub open spec fn names_view(files: Seq<String>) -> Seq<Seq<char>> {
    files.map_values(|s: String| s@)
}

/// The result of discovery: every entry is an accepted stem with its chosen
/// artifacts, every accepted stem has an entry, names are distinct and each
/// sorts before the next.
pub open spec fn discovered(
    files: Seq<Seq<char>>,
    prefer_precompiled: bool,
    r: Seq<PluginEntry>,
) -> bool {
    &&& forall|i: int|
        0 <= i < r.len() ==> accepted(files, (#[trigger] r[i]).name@) && artifacts_ok(
            files,
            r[i].name@,
            prefer_precompiled,
            r[i].artifacts,
        )
    &&& forall|n: Seq<char>|
        accepted(files, n) ==> exists|i: int| 0 <= i < r.len() && (#[trigger] r[i]).name@ == n
    &&& forall|i: int, j: int| 0 <= i < j < r.len() ==> r[i].name@ != r[j].name@
    &&& forall|i: int| 0 <= i < r.len() - 1 ==> lex_lt((#[trigger] r[i]).name@, r[i + 1].name@)
}

/// The stem of an artifact's file name.
pub fn artifact_stem(f: &str) -> (r: Option<String>)
    ensures
        opt_view(r) == stem_of(f@),
{
    let n = f.unicode_len();
    let wl = ".wasm".unicode_len();
    let cl = ".cwasm".unicode_len();
    if ends_with(f, ".wasm") && n > wl {
        Some(String::from_str(f.substring_char(0, n - wl)))
    } else if ends_with(f, ".cwasm") && n > cl {
        Some(String::from_str(f.substring_char(0, n - cl)))
    } else {
        None
    }
}

/// Whether the listing holds a file of this name.
pub fn contains_file(files: &Vec<String>, f: &str) -> (r: bool)
    ensures
        r == has_file(names_view(files@), f@),
{
    let ghost v = names_view(files@);
    let mut i: usize = 0;
    while i < files.len()
        invariant
            v == names_view(files@),
            i <= files.len(),
            forall|k: int| 0 <= k < i ==> v[k] != f@,
        decreases files.len() - i,
    {
        if str_eq(files[i].as_str(), f) {
            assert(v[i as int] == f@);
            return true;
        }
        i = i + 1;
    }
    false
}

fn with_suffix(stem: &String, suffix: &str) -> (r: String)
    ensures
        r@ == stem@ + suffix@,
{
    let mut r = stem.clone();
    r.append(suffix);
    r
}

fn has_name(entries: &Vec<PluginEntry>, name: &str) -> (r: bool)
    ensures
        r == exists|i: int| 0 <= i < entries@.len() && (#[trigger] entries@[i]).name@ == name@,
{
    let mut i: usize = 0;
    while i < entries.len()
        invariant
            i <= entries.len(),
            forall|k: int| 0 <= k < i ==> (#[trigger] entries@[k]).name@ != name@,
        decreases entries.len() - i,
    {
        if str_eq(entries[i].name.as_str(), name) {
            return true;
        }
        i = i + 1;
    }
    false
}

proof fn lemma_stem_of_artifact(n: Seq<char>)
    requires
        n.len() > 0,
    ensures
        stem_of(n + ".wasm"@) == Some(n),
        stem_of(n + ".cwasm"@) == Some(n),
{
    reveal_strlit(".wasm");
    reveal_strlit(".cwasm");
    let w = n + ".wasm"@;
    let c = n + ".cwasm"@;
    assert(w.subrange(w.len() - 5, w.len() as int) =~= ".wasm"@);
    assert(w.subrange(0, w.len() - 5) =~= n);
    assert(c.subrange(c.len() - 6, c.len() as int) =~= ".cwasm"@);
    assert(c.subrange(0, c.len() - 6) =~= n);
    assert(c.subrange(c.len() - 5, c.len() as int)[0] == 'c');
}

/// The plugins that a directory listing holds: one entry per stem that has an
/// artifact and a `.toml` configuration beside it, sorted by name.  Portable or
/// precompiled is preferred as `prefer_precompiled` says.
#[verifier::rlimit(40)]
pub fn discover_plugins(files: &Vec<String>, prefer_precompiled: bool) -> (r: Vec<PluginEntry>)
    ensures
        discovered(names_view(files@), prefer_precompiled, r@),
{
    let ghost fv = names_view(files@);
    let mut out: Vec<PluginEntry> = Vec::new();
    let mut i: usize = 0;
    while i < files.len()
        invariant
            fv == names_view(files@),
            i <= files.len(),
            forall|k: int|
                0 <= k < out@.len() ==> accepted(fv, (#[trigger] out@[k]).name@) && artifacts_ok(
                    fv,
                    out@[k].name@,
                    prefer_precompiled,
                    out@[k].artifacts,
                ),
            forall|j: int|
                0 <= j < i && (#[trigger] stem_of(fv[j])).is_some() && accepted(
                    fv,
                    stem_of(fv[j]).unwrap(),
                ) ==> exists|k: int| 0 <= k < out@.len() && (#[trigger] out@[k]).name@ == stem_of(
                    fv[j],
                ).unwrap(),
            forall|a: int, b: int| 0 <= a < b < out@.len() ==> out@[a].name@ != out@[b].name@,
            forall|a: int|
                0 <= a < out@.len() - 1 ==> lex_lt((#[trigger] out@[a]).name@, out@[a + 1].name@),
        decreases files.len() - i,
    {
        let stem_opt = artifact_stem(files[i].as_str());
        assert(fv[i as int] == files@[i as int]@);
        if let Some(stem) = stem_opt {
            if !has_name(&out, stem.as_str()) {
                let w = with_suffix(&stem, ".wasm");
                let c = with_suffix(&stem, ".cwasm");
                let t = with_suffix(&stem, ".toml");
                let has_w = contains_file(files, w.as_str());
                let has_c = contains_file(files, c.as_str());
                let has_t = contains_file(files, t.as_str());
                if has_t && stem.unicode_len() > 0 {
                    let set = ArtifactSet {
                        wasm: if has_w {
                            Some(w)
                        } else {
                            None
                        },
                        cwasm: if has_c {
                            Some(c)
                        } else {
                            None
                        },
                    };
                    if let Some(artifacts) = set.into_artifacts(prefer_precompiled) {
                        let mut p: usize = 0;
                        while p < out.len() && str_lt(out[p].name.as_str(), stem.as_str())
                            invariant
                                p <= out@.len(),
                                forall|k: int| 0 <= k < p ==> lex_lt(
                                    (#[trigger] out@[k]).name@,
                                    stem@,
                                ),
                            decreases out@.len() - p,
                        {
                            p = p + 1;
                        }
                        proof {
                            if p < out@.len() {
                                lemma_lex_total(out@[p as int].name@, stem@);
                            }
                        }
                        let ghost old_out = out@;
                        let entry = PluginEntry { name: stem, artifacts };
                        out.insert(p, entry);
                        proof {
                            assert(out@ == old_out.insert(p as int, entry));
                            assert forall|a: int|
                                0 <= a < out@.len() - 1 implies lex_lt(
                                (#[trigger] out@[a]).name@,
                                out@[a + 1].name@,
                            ) by {
                                if a < p - 1 {
                                    assert(out@[a] == old_out[a]);
                                    assert(out@[a + 1] == old_out[a + 1]);
                                } else if a == p - 1 {
                                } else if a == p {
                                } else {
                                    assert(out@[a] == old_out[a - 1]);
                                    assert(out@[a + 1] == old_out[a]);
                                }
                            }
                            assert forall|j: int|
                                0 <= j < i + 1 && (#[trigger] stem_of(fv[j])).is_some() && accepted(
                                    fv,
                                    stem_of(fv[j]).unwrap(),
                                ) implies exists|k: int|
                                0 <= k < out@.len() && (#[trigger] out@[k]).name@ == stem_of(
                                    fv[j],
                                ).unwrap() by {
                                if j < i {
                                    let k0 = choose|k: int|
                                        0 <= k < old_out.len() && (#[trigger] old_out[k]).name@
                                            == stem_of(fv[j]).unwrap();
                                    if k0 < p {
                                        assert(out@[k0] == old_out[k0]);
                                    } else {
                                        assert(out@[k0 + 1] == old_out[k0]);
                                    }
                                } else {
                                    assert(out@[p as int].name@ == stem@);
                                }
                            }
                        }
                    }
                }
            }
        }
        i = i + 1;
    }
    proof {
        assert forall|n: Seq<char>| accepted(fv, n) implies exists|k: int|
            0 <= k < out@.len() && (#[trigger] out@[k]).name@ == n by {
            lemma_stem_of_artifact(n);
            if has_file(fv, n + ".wasm"@) {
                let j = choose|j: int| 0 <= j < fv.len() && fv[j] == n + ".wasm"@;
                assert(stem_of(fv[j]) == Some(n));
            } else {
                let j = choose|j: int| 0 <= j < fv.len() && fv[j] == n + ".cwasm"@;
                assert(stem_of(fv[j]) == Some(n));
            }
        }
    }
    out
}


/// Before an artifact is instantiated, it and its configuration must be on
/// disk; a missing one is a load error that names the missing file.
pub fn load_precheck(artifact: &str, artifact_exists: bool, config: &str, config_exists: bool) -> (r:
    Result<(), CoreError>)
    ensures
        r is Ok <==> artifact_exists && config_exists,
        !artifact_exists ==> (r matches Err(CoreError::PluginLoad(m)) && m@
            == "plugin artifact missing: "@ + artifact@),
        artifact_exists && !config_exists ==> (r matches Err(CoreError::PluginLoad(m)) && m@
            == "missing plugin config: "@ + config@),
{
    if !artifact_exists {
        let mut m = String::from_str("plugin artifact missing: ");
        m.append(artifact);
        return Err(CoreError::PluginLoad(m));
    }
    if !config_exists {
        let mut m = String::from_str("missing plugin config: ");
        m.append(config);
        return Err(CoreError::PluginLoad(m));
    }
    Ok(())
}

/// What loading does after one attempt to instantiate an artifact.
#[derive(Clone, Debug)]
pub enum LoadStep {
    /// The artifact loaded: the plugin is ready.
    Ready,
    /// The primary failed: try this fallback artifact.
    TryFallback(String),
    /// Every artifact failed: loading fails with the last error.
    Failed,
}

/// Loading tries the primary artifact, then the fallback if there is one,
/// and fails only when both failed (or the primary failed alone).
pub fn after_load_attempt(artifacts: &PluginArtifacts, tried_fallback: bool, loaded: bool) -> (r:
    LoadStep)
    ensures
        loaded ==> r is Ready,
        !loaded && !tried_fallback && artifacts.fallback.is_some() ==> r == LoadStep::TryFallback(
            artifacts.fallback.unwrap(),
        ),
        !loaded && (tried_fallback || artifacts.fallback.is_none()) ==> r is Failed,
{
    if loaded {
        LoadStep::Ready
    } else if tried_fallback {
        LoadStep::Failed
    } else {
        match &artifacts.fallback {
            Some(f) => LoadStep::TryFallback(f.clone()),
            None => LoadStep::Failed,
        }
    }
}

/// The plugins found in one directory, sorted by name.
#[derive(Clone, Debug)]
pub struct PluginRegistry {
    pub entries: Vec<PluginEntry>,
}

impl PluginRegistry {
    /// The registry of the plugins that a directory listing holds.
    pub fn from_listing(files: &Vec<String>, prefer_precompiled: bool) -> (r: PluginRegistry)
        ensures
            discovered(names_view(files@), prefer_precompiled, r.entries@),
    {
        PluginRegistry { entries: discover_plugins(files, prefer_precompiled) }
    }

    /// The names of the registered plugins, in registry order.
    pub fn list_plugins(&self) -> (r: Vec<String>)
        ensures
            r@.map_values(|s: String| s@) == self.entries@.map_values(|e: PluginEntry| e.name@),
    {
        let mut out: Vec<String> = Vec::new();
        let mut i: usize = 0;
        while i < self.entries.len()
            invariant
                i <= self.entries.len(),
                out@.map_values(|s: String| s@) == self.entries@.subrange(0, i as int).map_values(
                    |e: PluginEntry| e.name@,
                ),
            decreases self.entries.len() - i,
        {
            let ghost before = out@;
            out.push(self.entries[i].name.clone());
            assert(out@.map_values(|s: String| s@) =~= before.map_values(|s: String| s@).push(
                self.entries@[i as int].name@,
            ));
            assert(self.entries@.subrange(0, i + 1).map_values(|e: PluginEntry| e.name@)
                =~= self.entries@.subrange(0, i as int).map_values(|e: PluginEntry| e.name@).push(
                self.entries@[i as int].name@,
            ));
            i = i + 1;
        }
        assert(self.entries@.subrange(0, self.entries@.len() as int) =~= self.entries@);
        out
    }

    /// The position of the plugin of this name, if it is registered.
    pub fn position_of(&self, name: &str) -> (r: Option<usize>)
        ensures
            match r {
                Some(i) => i < self.entries@.len() && self.entries@[i as int].name@ == name@,
                None => forall|k: int|
                    0 <= k < self.entries@.len() ==> (#[trigger] self.entries@[k]).name@ != name@,
            },
    {
        let mut i: usize = 0;
        while i < self.entries.len()
            invariant
                i <= self.entries.len(),
                forall|k: int| 0 <= k < i ==> (#[trigger] self.entries@[k]).name@ != name@,
            decreases self.entries.len() - i,
        {
            if str_eq(self.entries[i].name.as_str(), name) {
                return Some(i);
            }
            i = i + 1;
        }
        None
    }
}

/// A stem whose `.toml` configuration is missing from the listing is not
/// registered, so it is never listed, loaded or searched.
pub proof fn lemma_configless_not_registered(
    files: Seq<Seq<char>>,
    prefer_precompiled: bool,
    r: Seq<PluginEntry>,
    n: Seq<char>,
)
    requires
        discovered(files, prefer_precompiled, r),
        !has_file(files, n + ".toml"@),
    ensures
        forall|i: int| 0 <= i < r.len() ==> (#[trigger] r[i]).name@ != n,
{
}

/// A stem with an artifact and its configuration is registered exactly once.
pub proof fn lemma_configured_registered_once(
    files: Seq<Seq<char>>,
    prefer_precompiled: bool,
    r: Seq<PluginEntry>,
    n: Seq<char>,
)
    requires
        discovered(files, prefer_precompiled, r),
        n.len() > 0,
        has_file(files, n + ".wasm"@) || has_file(files, n + ".cwasm"@),
        has_file(files, n + ".toml"@),
    ensures
        exists|i: int|
            0 <= i < r.len() && (#[trigger] r[i]).name@ == n && forall|j: int|
                0 <= j < r.len() && j != i ==> (#[trigger] r[j]).name@ != n,
{
    assert(accepted(files, n));
    let i = choose|i: int| 0 <= i < r.len() && (#[trigger] r[i]).name@ == n;
    assert forall|j: int| 0 <= j < r.len() && j != i implies (#[trigger] r[j]).name@ != n by {
        if j < i {
            assert(r[j].name@ != r[i].name@);
        } else {
            assert(r[i].name@ != r[j].name@);
        }
    }
    assert(0 <= i < r.len() && r[i].name@ == n && forall|j: int|
        0 <= j < r.len() && j != i ==> (#[trigger] r[j]).name@ != n);
}

} // verus!
