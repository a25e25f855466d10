//! Bringing a folder of mod jars in step with the latest releases: which
//! files are kept, which are downloaded, which are removed, and which mods
//! have no release for the chosen game version.
use crate::digest::{content_hash, file_hash};
use crate::mod_index::{keys_unique, lemma_pairs_map, pairs_map, ModHashes};
use vstd::prelude::*;
use vstd::string::*;
use vstd::utf8::*;

verus! {

broadcast use vstd::utf8::encode_utf8_valid_utf8;

/// What Modrinth answered for one mod.
#[derive(Clone, Debug, PartialEq, Eq)]
pub enum Status {
    /// The latest release for the game version: the mod's identifier, the
    /// address of its first file and that file's SHA-1 text.
    Found { id: String, url: String, sha1: String },
    /// No release for the game version; the project's slug names the mod.
    NotFound { slug: String },
}

/// A file to fetch into the mods folder.
#[derive(Clone, Debug, PartialEq, Eq)]
pub struct Download {
    pub id: String,
    pub url: String,
    pub sha1: String,
}

impl Download {
    pub open spec fn view(&self) -> (Seq<char>, Seq<char>, Seq<char>) {
        (self.id@, self.url@, self.sha1@)
    }
}

/// What to do to the mods folder.
#[derive(Clone, Debug, PartialEq, Eq)]
pub struct SyncPlan {
    /// Mods whose jar already has the released content.
    pub keep: Vec<String>,
    /// Jars to fetch, in the order of the answers.
    pub downloads: Vec<Download>,
    /// Identifiers whose jar is removed, in the order of the folder's map.
    pub removals: Vec<String>,
    /// Slugs of mods with no release for the game version.
    pub missing: Vec<String>,
}

/// The character views of a list of strings.
pub open spec fn strs(v: Seq<String>) -> Seq<Seq<char>> {
    v.map_values(|s: String| s@)
}

/// The views of a list of downloads.
pub open spec fn downloads_view(v: Seq<Download>) -> Seq<(Seq<char>, Seq<char>, Seq<char>)> {
    v.map_values(|d: Download| d.view())
}

/// The mods that the answers ask for: identifier to hash, a later answer for
/// the same identifier winning.
pub open spec fn wanted_map(st: Seq<Status>) -> Map<Seq<char>, Seq<char>>
    decreases st.len(),
{
    if st.len() == 0 {
        Map::empty()
    } else {
        let m = wanted_map(st.drop_last());
        match st.last() {
            Status::Found { id, sha1, .. } => m.insert(id@, sha1@),
            Status::NotFound { .. } => m,
        }
    }
}

/// The answer is a release whose content the folder already holds.
pub open spec fn is_current(installed: Map<Seq<char>, Seq<char>>, s: Status) -> bool {
    match s {
        Status::Found { id, sha1, .. } => installed.contains_key(id@) && installed[id@] == sha1@,
        Status::NotFound { .. } => false,
    }
}

/// Slugs of the answers without a release, in order.
pub open spec fn missing_of(st: Seq<Status>) -> Seq<Seq<char>>
    decreases st.len(),
{
    if st.len() == 0 {
        Seq::empty()
    } else {
        let m = missing_of(st.drop_last());
        match st.last() {
            Status::NotFound { slug } => m.push(slug@),
            Status::Found { .. } => m,
        }
    }
}

/// Identifiers of the releases already held, in order.
pub open spec fn kept_of(installed: Map<Seq<char>, Seq<char>>, st: Seq<Status>) -> Seq<Seq<char>>
    decreases st.len(),
{
    if st.len() == 0 {
        Seq::empty()
    } else {
        let m = kept_of(installed, st.drop_last());
        match st.last() {
            Status::Found { id, .. } => if is_current(installed, st.last()) {
                m.push(id@)
            } else {
                m
            },
            Status::NotFound { .. } => m,
        }
    }
}

/// The releases to fetch, in order: those not already held.
pub open spec fn downloads_of(installed: Map<Seq<char>, Seq<char>>, st: Seq<Status>) -> Seq<
    (Seq<char>, Seq<char>, Seq<char>),
>
    decreases st.len(),
{
    if st.len() == 0 {
        Seq::empty()
    } else {
        let m = downloads_of(installed, st.drop_last());
        match st.last() {
            Status::Found { id, url, sha1 } => if is_current(installed, st.last()) {
                m
            } else {
                m.push((id@, url@, sha1@))
            },
            Status::NotFound { .. } => m,
        }
    }
}

/// Identifiers of the held jars that no answer asks for with the same
/// content, in the order of the held pairs.
pub open spec fn removals_of(
    installed: Seq<(Seq<char>, Seq<char>)>,
    wanted: Map<Seq<char>, Seq<char>>,
) -> Seq<Seq<char>>
    decreases installed.len(),
{
    if installed.len() == 0 {
        Seq::empty()
    } else {
        let m = removals_of(installed.drop_last(), wanted);
        let (k, h) = installed.last();
        if wanted.contains_key(k) && wanted[k] == h {
            m
        } else {
            m.push(k)
        }
    }
}

/// Decides what happens to the mods folder, given the jars it holds
/// (identifier to content hash) and Modrinth's answer for each selected mod.
pub fn plan_sync(installed: &ModHashes, statuses: &Vec<Status>) -> (r: SyncPlan)
    ensures
        strs(r.keep@) == kept_of(installed.map(), statuses@),
        downloads_view(r.downloads@) == downloads_of(installed.map(), statuses@),
        strs(r.removals@) == removals_of(installed.pairs(), wanted_map(statuses@)),
        strs(r.missing@) == missing_of(statuses@),
        strs(r.missing@).len() == unreleased(statuses@).len(),
        forall|i: int|
            0 <= i < statuses@.len() && (#[trigger] statuses@[i]) is NotFound ==> strs(
                r.missing@,
            ).contains(statuses@[i]->slug@),
{
    let mut keep: Vec<String> = Vec::new();
    let mut downloads: Vec<Download> = Vec::new();
    let mut missing: Vec<String> = Vec::new();
    let mut wanted = ModHashes::new();
    let ghost st = statuses@;
    let ghost e = installed.map();
    let mut i: usize = 0;
    while i < statuses.len()
        invariant
            i <= statuses.len(),
            st == statuses@,
            e == installed.map(),
            strs(keep@) == kept_of(e, st.take(i as int)),
            downloads_view(downloads@) == downloads_of(e, st.take(i as int)),
            strs(missing@) == missing_of(st.take(i as int)),
            wanted.map() == wanted_map(st.take(i as int)),
        decreases statuses.len() - i,
    {
        assert(st.take(i + 1).drop_last() =~= st.take(i as int));
        assert(st.take(i + 1).last() == st[i as int]);
        match &statuses[i] {
            Status::Found { id, url, sha1 } => {
                wanted.insert(id.clone(), sha1.clone());
                let current = match installed.get(id) {
                    Some(h) => *h == *sha1,
                    None => false,
                };
                if current {
                    keep.push(id.clone());
                    assert(strs(keep@) =~= kept_of(e, st.take(i as int)).push(id@));
                } else {
                    downloads.push(Download { id: id.clone(), url: url.clone(), sha1: sha1.clone() });
                    assert(downloads_view(downloads@) =~= downloads_of(e, st.take(i as int)).push(
                        (id@, url@, sha1@),
                    ));
                }
            },
            Status::NotFound { slug } => {
                missing.push(slug.clone());
                assert(strs(missing@) =~= missing_of(st.take(i as int)).push(slug@));
            },
        }
        i = i + 1;
    }
    assert(st.take(st.len() as int) =~= st);
    let ghost w = wanted.map();
    let ghost p = installed.pairs();
    let mut removals: Vec<String> = Vec::new();
    let mut j: usize = 0;
    while j < installed.len()
        invariant
            j <= p.len(),
            p == installed.pairs(),
            w == wanted.map(),
            strs(removals@) == removals_of(p.take(j as int), w),
        decreases p.len() - j,
    {
        assert(p.take(j + 1).drop_last() =~= p.take(j as int));
        assert(p.take(j + 1).last() == p[j as int]);
        let (k, h) = installed.entry(j);
        let same = match wanted.get(k) {
            Some(x) => *x == *h,
            None => false,
        };
        if !same {
            removals.push(k.clone());
            assert(strs(removals@) =~= removals_of(p.take(j as int), w).push(k@));
        }
        j = j + 1;
    }
    assert(p.take(p.len() as int) =~= p);
    proof {
        lemma_missing_reports_every_unreleased(st);
    }
    SyncPlan { keep, downloads, removals, missing }
}

/// The identifier that a file name stands for: its first eight bytes.
pub open spec fn mod_id_of(file_name: &str) -> Seq<char> {
    id_of_name(file_name@)
}

/// The identifier of a mod jar in the folder: the first eight bytes of its
/// name, which must end on a character boundary.
pub fn mod_id(file_name: &str) -> (r: String)
    requires
        is_char_boundary(file_name.spec_bytes(), 8),
    ensures
        r@ == mod_id_of(file_name),
        encode_utf8(r@) == file_name.spec_bytes().subrange(0, 8),
{
    let (head, _) = file_name.split_at(8);
    proof {
        encode_utf8_decode_utf8(head@);
    }
    head.to_owned()
}

/// Records one jar of the mods folder: its identifier, taken from its name,
/// and the hash of its content.
pub fn record_file(installed: &mut ModHashes, file_name: &str, content: &[u8])
    requires
        is_char_boundary(file_name.spec_bytes(), 8),
    ensures
        final(installed).map() == old(installed).map().insert(
            mod_id_of(file_name),
            content_hash(content@),
        ),
{
    let id = mod_id(file_name);
    let hash = file_hash(content);
    installed.insert(id, hash);
}

/// The index of the last '.' of a name, or -1.
pub open spec fn last_dot(s: Seq<char>) -> int
    decreases s.len(),
{
    if s.len() == 0 {
        -1
    } else if s.last() == '.' {
        s.len() - 1
    } else {
        last_dot(s.drop_last())
    }
}

/// The stem of a file name, as `Path::file_stem` takes it: the part before
/// the last '.', unless that '.' is the first character.
pub open spec fn file_stem(s: Seq<char>) -> Seq<char> {
    if last_dot(s) > 0 {
        s.subrange(0, last_dot(s))
    } else {
        s
    }
}

/// The name of the jar for a mod identifier: its stem with the extension
/// "jar", as `Path::with_extension("jar")` makes it.
pub open spec fn jar_name(id: Seq<char>) -> Seq<char> {
    file_stem(id) + ".jar"@
}

proof fn lemma_last_dot_bounds(s: Seq<char>)
    ensures
        -1 <= last_dot(s) < s.len(),
        last_dot(s) >= 0 ==> s[last_dot(s)] == '.',
    decreases s.len(),
{
    if s.len() > 0 {
        lemma_last_dot_bounds(s.drop_last());
    }
}

/// The file name of a mod's jar in the mods folder.
pub fn jar_file_name(id: &String) -> (r: String)
    ensures
        r@ == jar_name(id@),
{
    let s = id.as_str();
    let n = s.unicode_len();
    let mut last: Option<usize> = None;
    let mut i: usize = 0;
    while i < n
        invariant
            n == s@.len(),
            s@ == id@,
            i <= n,
            match last {
                Some(k) => last_dot(s@.take(i as int)) == k as int,
                None => last_dot(s@.take(i as int)) == -1,
            },
        decreases n - i,
    {
        assert(s@.take(i + 1).drop_last() =~= s@.take(i as int));
        if s.get_char(i) == '.' {
            last = Some(i);
        }
        i = i + 1;
    }
    assert(s@.take(n as int) =~= s@);
    proof {
        lemma_last_dot_bounds(s@);
    }
    let stem = match last {
        Some(k) => if k > 0 {
            s.substring_char(0, k)
        } else {
            s
        },
        None => s,
    };
    let mut r = String::from_str(stem);
    r.append(".jar");
    r
}

} // verus!

verus! {

/// No two releases in the answers carry the same identifier (each selected
/// mod is asked about once).
pub open spec fn found_ids_distinct(st: Seq<Status>) -> bool {
    forall|i: int, j: int|
        #![trigger st[i], st[j]]
        0 <= i < st.len() && 0 <= j < st.len() && i != j && st[i] is Found && st[j] is Found
            ==> st[i]->id@ != st[j]->id@
}

/// The identifier-to-hash map of a list of downloads.
pub open spec fn download_map(d: Seq<(Seq<char>, Seq<char>, Seq<char>)>) -> Map<Seq<char>, Seq<char>>
    decreases d.len(),
{
    if d.len() == 0 {
        Map::empty()
    } else {
        download_map(d.drop_last()).insert(d.last().0, d.last().2)
    }
}

/// The folder after a plan is carried out: the removed jars are gone, and
/// each downloaded jar holds its release.
pub open spec fn after_sync(
    installed: Map<Seq<char>, Seq<char>>,
    removals: Seq<Seq<char>>,
    downloads: Seq<(Seq<char>, Seq<char>, Seq<char>)>,
) -> Map<Seq<char>, Seq<char>> {
    installed.remove_keys(removals.to_set()).union_prefer_right(download_map(downloads))
}

proof fn lemma_wanted_map(st: Seq<Status>)
    requires
        found_ids_distinct(st),
    ensures
        forall|i: int|
            #![trigger st[i]]
            0 <= i < st.len() && st[i] is Found ==> wanted_map(st).contains_key(st[i]->id@)
                && wanted_map(st)[st[i]->id@] == st[i]->sha1@,
        forall|k: Seq<char>|
            #[trigger] wanted_map(st).contains_key(k) ==> exists|i: int|
                0 <= i < st.len() && st[i] is Found && st[i]->id@ == k,
    decreases st.len(),
{
    if st.len() > 0 {
        let q = st.drop_last();
        assert forall|i: int, j: int|
            #![trigger q[i], q[j]]
            0 <= i < q.len() && 0 <= j < q.len() && i != j && q[i] is Found && q[j] is Found
                implies q[i]->id@ != q[j]->id@ by {
            assert(st[i] == q[i] && st[j] == q[j]);
        }
        lemma_wanted_map(q);
        let n = st.len() - 1;
        assert forall|i: int| #![trigger st[i]] 0 <= i < st.len() && st[i] is Found implies wanted_map(
            st,
        ).contains_key(st[i]->id@) && wanted_map(st)[st[i]->id@] == st[i]->sha1@ by {
            if i < n {
                assert(q[i] == st[i]);
                if st[n] is Found {
                    assert(st[n]->id@ != st[i]->id@);
                }
            }
        }
        assert forall|k: Seq<char>| #[trigger] wanted_map(st).contains_key(k) implies exists|i: int|
            0 <= i < st.len() && st[i] is Found && st[i]->id@ == k by {
            if st[n] is Found && st[n]->id@ == k {
            } else {
                assert(wanted_map(q).contains_key(k));
                let i = choose|i: int| 0 <= i < q.len() && q[i] is Found && q[i]->id@ == k;
                assert(q[i] == st[i]);
            }
        }
    }
}

proof fn lemma_downloads(e: Map<Seq<char>, Seq<char>>, st: Seq<Status>)
    requires
        found_ids_distinct(st),
    ensures
        forall|i: int|
            #![trigger st[i]]
            0 <= i < st.len() && st[i] is Found && !is_current(e, st[i]) ==> download_map(
                downloads_of(e, st),
            ).contains_key(st[i]->id@) && download_map(downloads_of(e, st))[st[i]->id@]
                == st[i]->sha1@,
        forall|k: Seq<char>|
            #[trigger] download_map(downloads_of(e, st)).contains_key(k) ==> exists|i: int|
                0 <= i < st.len() && st[i] is Found && !is_current(e, st[i]) && st[i]->id@ == k,
        (forall|i: int| #![trigger st[i]] 0 <= i < st.len() && st[i] is Found ==> is_current(e, st[i]))
            ==> downloads_of(e, st).len() == 0,
    decreases st.len(),
{
    if st.len() > 0 {
        let q = st.drop_last();
        assert forall|i: int, j: int|
            #![trigger q[i], q[j]]
            0 <= i < q.len() && 0 <= j < q.len() && i != j && q[i] is Found && q[j] is Found
                implies q[i]->id@ != q[j]->id@ by {
            assert(st[i] == q[i] && st[j] == q[j]);
        }
        lemma_downloads(e, q);
        let n = st.len() - 1;
        let d = downloads_of(e, st);
        let dq = downloads_of(e, q);
        if st[n] is Found && !is_current(e, st[n]) {
            assert(d == dq.push((st[n]->id@, st[n]->url@, st[n]->sha1@)));
            assert(d.drop_last() =~= dq);
        } else {
            assert(d == dq);
        }
        assert forall|i: int|
            #![trigger st[i]]
            0 <= i < st.len() && st[i] is Found && !is_current(e, st[i]) implies download_map(
                d,
            ).contains_key(st[i]->id@) && download_map(d)[st[i]->id@] == st[i]->sha1@ by {
            if i < n {
                assert(q[i] == st[i]);
                if st[n] is Found {
                    assert(st[n]->id@ != st[i]->id@);
                }
            }
        }
        assert forall|k: Seq<char>| #[trigger] download_map(d).contains_key(k) implies exists|i: int|
            0 <= i < st.len() && st[i] is Found && !is_current(e, st[i]) && st[i]->id@ == k by {
            if st[n] is Found && !is_current(e, st[n]) && st[n]->id@ == k {
            } else {
                assert(download_map(dq).contains_key(k));
                let i = choose|i: int|
                    0 <= i < q.len() && q[i] is Found && !is_current(e, q[i]) && q[i]->id@ == k;
                assert(q[i] == st[i]);
            }
        }
        if forall|i: int| #![trigger st[i]] 0 <= i < st.len() && st[i] is Found ==> is_current(e, st[i]) {
            assert forall|i: int| #![trigger q[i]] 0 <= i < q.len() && q[i] is Found implies is_current(e, q[i]) by {
                assert(q[i] == st[i]);
            }
            if st[n] is Found {
                assert(is_current(e, st[n]));
            }
        }
    }
}

proof fn lemma_removals(p: Seq<(Seq<char>, Seq<char>)>, w: Map<Seq<char>, Seq<char>>)
    ensures
        forall|j: int|
            #![trigger p[j]]
            0 <= j < p.len() && !(w.contains_key(p[j].0) && w[p[j].0] == p[j].1) ==> removals_of(
                p,
                w,
            ).contains(p[j].0),
        forall|k: Seq<char>|
            #[trigger] removals_of(p, w).contains(k) ==> exists|j: int|
                0 <= j < p.len() && p[j].0 == k && !(w.contains_key(k) && w[k] == p[j].1),
        (forall|j: int| #![trigger p[j]] 0 <= j < p.len() ==> w.contains_key(p[j].0) && w[p[j].0] == p[j].1)
            ==> removals_of(p, w).len() == 0,
    decreases p.len(),
{
    if p.len() > 0 {
        let q = p.drop_last();
        lemma_removals(q, w);
        let n = p.len() - 1;
        let r = removals_of(p, w);
        let rq = removals_of(q, w);
        let (k0, h0) = p.last();
        if w.contains_key(k0) && w[k0] == h0 {
            assert(r == rq);
        } else {
            assert(r == rq.push(k0));
            assert(r[rq.len() as int] == k0);
        }
        assert forall|j: int|
            #![trigger p[j]]
            0 <= j < p.len() && !(w.contains_key(p[j].0) && w[p[j].0] == p[j].1) implies r.contains(
                p[j].0,
            ) by {
            if j < n {
                assert(q[j] == p[j]);
                assert(rq.contains(q[j].0));
                let m = choose|m: int| 0 <= m < rq.len() && rq[m] == q[j].0;
                assert(r[m] == rq[m]);
            }
        }
        assert forall|k: Seq<char>| #[trigger] r.contains(k) implies exists|j: int|
            0 <= j < p.len() && p[j].0 == k && !(w.contains_key(k) && w[k] == p[j].1) by {
            let m = choose|m: int| 0 <= m < r.len() && r[m] == k;
            if m < rq.len() {
                assert(rq[m] == k);
                assert(rq.contains(k));
                let j = choose|j: int| 0 <= j < q.len() && q[j].0 == k && !(w.contains_key(k) && w[k] == q[j].1);
                assert(p[j] == q[j]);
            } else {
                assert(p[n].0 == k);
            }
        }
        if forall|j: int| #![trigger p[j]] 0 <= j < p.len() ==> w.contains_key(p[j].0) && w[p[j].0] == p[j].1 {
            assert forall|j: int| #![trigger q[j]] 0 <= j < q.len() implies w.contains_key(q[j].0) && w[q[j].0] == q[j].1 by {
                assert(q[j] == p[j]);
            }
            assert(w.contains_key(p[n].0) && w[p[n].0] == p[n].1);
        }
    }
}

/// Carrying out the plan leaves the folder holding exactly the wanted mods,
/// each with its released content: jars already current are kept, stale or
/// unselected jars are removed, and missing or stale ones are fetched.
pub proof fn lemma_sync_reaches_wanted(installed: Seq<(Seq<char>, Seq<char>)>, st: Seq<Status>)
    requires
        keys_unique(installed),
        found_ids_distinct(st),
    ensures
        after_sync(
            pairs_map(installed),
            removals_of(installed, wanted_map(st)),
            downloads_of(pairs_map(installed), st),
        ) == wanted_map(st),
{
    let e = pairs_map(installed);
    let w = wanted_map(st);
    let rem = removals_of(installed, w);
    let dl = downloads_of(e, st);
    let d = download_map(dl);
    lemma_pairs_map(installed);
    lemma_wanted_map(st);
    lemma_downloads(e, st);
    lemma_removals(installed, w);
    let a = after_sync(e, rem, dl);
    assert forall|k: Seq<char>| a.contains_key(k) <==> w.contains_key(k) by {
        if w.contains_key(k) {
            let i = choose|i: int| 0 <= i < st.len() && st[i] is Found && st[i]->id@ == k;
            if is_current(e, st[i]) {
                if rem.to_set().contains(k) {
                    assert(rem.contains(k));
                    let j = choose|j: int|
                        0 <= j < installed.len() && installed[j].0 == k && !(w.contains_key(k)
                            && w[k] == installed[j].1);
                    assert(installed[j].0 == k);
                }
            }
        }
        if a.contains_key(k) && !w.contains_key(k) {
            if d.contains_key(k) {
                let i = choose|i: int|
                    0 <= i < st.len() && st[i] is Found && !is_current(e, st[i]) && st[i]->id@ == k;
                assert(st[i] is Found);
            } else {
                assert(e.contains_key(k));
                let j = choose|j: int| 0 <= j < installed.len() && installed[j].0 == k;
                assert(installed[j].0 == k);
                assert(rem.contains(k));
            }
        }
    }
    assert forall|k: Seq<char>| #[trigger] a.contains_key(k) implies a[k] == w[k] by {
        let i = choose|i: int| 0 <= i < st.len() && st[i] is Found && st[i]->id@ == k;
        if d.contains_key(k) {
            let i2 = choose|i2: int|
                0 <= i2 < st.len() && st[i2] is Found && !is_current(e, st[i2]) && st[i2]->id@ == k;
            if i2 != i {
                assert(st[i]->id@ != st[i2]->id@);
            }
        } else {
            assert(is_current(e, st[i]));
        }
    }
    assert(a =~= w);
}

/// A folder that already holds exactly the wanted mods is left alone: the
/// plan fetches nothing and removes nothing.
pub proof fn lemma_sync_idempotent(installed: Seq<(Seq<char>, Seq<char>)>, st: Seq<Status>)
    requires
        keys_unique(installed),
        found_ids_distinct(st),
        pairs_map(installed) == wanted_map(st),
    ensures
        downloads_of(pairs_map(installed), st).len() == 0,
        removals_of(installed, wanted_map(st)).len() == 0,
{
    let e = pairs_map(installed);
    let w = wanted_map(st);
    lemma_pairs_map(installed);
    lemma_wanted_map(st);
    lemma_downloads(e, st);
    lemma_removals(installed, w);
    assert forall|i: int| #![trigger st[i]] 0 <= i < st.len() && st[i] is Found implies is_current(e, st[i]) by {
    }
    assert forall|j: int| #![trigger installed[j]] 0 <= j < installed.len() implies w.contains_key(installed[j].0)
        && w[installed[j].0] == installed[j].1 by {
    }
}

} // verus!

verus! {

proof fn lemma_last_dot_none(s: Seq<char>)
    requires
        !s.contains('.'),
    ensures
        last_dot(s) == -1,
    decreases s.len(),
{
    if s.len() > 0 {
        assert(s[s.len() - 1] == s.last());
        assert(!s.drop_last().contains('.')) by {
            if s.drop_last().contains('.') {
                let k = choose|k: int| 0 <= k < s.drop_last().len() && s.drop_last()[k] == '.';
                assert(s[k] == '.');
            }
        }
        lemma_last_dot_none(s.drop_last());
    }
}

/// A name without a '.' gets ".jar" appended.
pub proof fn lemma_jar_name_plain(id: Seq<char>)
    requires
        !id.contains('.'),
    ensures
        jar_name(id) == id + ".jar"@,
{
    lemma_last_dot_none(id);
}

/// The identifier taken from a file name: its first eight bytes.
pub open spec fn id_of_name(name: Seq<char>) -> Seq<char> {
    decode_utf8(encode_utf8(name).subrange(0, 8))
}

/// The jar written for a mod is read back as that mod: a Modrinth
/// identifier (eight ASCII characters without a '.') gives the jar name
/// "<id>.jar", whose first eight bytes are the identifier again.
pub proof fn lemma_jar_read_back(id: Seq<char>)
    requires
        id.len() == 8,
        is_ascii_chars(id),
        !id.contains('.'),
    ensures
        id_of_name(jar_name(id)) == id,
{
    lemma_jar_name_plain(id);
    reveal_strlit(".jar");
    let name = id + ".jar"@;
    assert(is_ascii_chars(".jar"@));
    assert(is_ascii_chars(name)) by {
        assert forall|i: int| 0 <= i < name.len() implies '\0' <= #[trigger] name[i] <= '\u{7f}' by {
            if i < 8 {
                assert(name[i] == id[i]);
            } else {
                assert(name[i] == ".jar"@[i - 8]);
            }
        }
    }
    is_ascii_chars_encode_utf8(name);
    is_ascii_chars_encode_utf8(id);
    assert(encode_utf8(name).subrange(0, 8) =~= encode_utf8(id)) by {
        assert forall|i: int| 0 <= i < 8 implies encode_utf8(name).subrange(0, 8)[i] == encode_utf8(id)[i] by {
            assert(name[i] == id[i]);
        }
    }
    encode_utf8_decode_utf8(id);
}

} // verus!

verus! {

/// Answers asked for a selection without repeats, one per selected mod and
/// each naming the mod it was asked for, carry distinct identifiers: the
/// premise of the laws above holds for the installer's own answers.
pub proof fn lemma_selection_answers_distinct(ids: Seq<Seq<char>>, st: Seq<Status>)
    requires
        ids.no_duplicates(),
        st.len() == ids.len(),
        forall|i: int| 0 <= i < st.len() && #[trigger] st[i] is Found ==> st[i]->id@ == ids[i],
    ensures
        found_ids_distinct(st),
{
}

} // verus!

verus! {

/// Running the sync a second time, with Modrinth's answers unchanged, does
/// nothing: after a first run over a selection without repeats has been
/// carried out, the folder holds exactly the wanted releases, and the
/// second plan fetches nothing and removes nothing (its missing slugs,
/// `missing_of(st)`, are those of the first run).
pub proof fn lemma_second_sync_does_nothing(
    ids: Seq<Seq<char>>,
    st: Seq<Status>,
    first: Seq<(Seq<char>, Seq<char>)>,
    second: Seq<(Seq<char>, Seq<char>)>,
)
    requires
        ids.no_duplicates(),
        st.len() == ids.len(),
        forall|i: int| 0 <= i < st.len() && #[trigger] st[i] is Found ==> st[i]->id@ == ids[i],
        keys_unique(first),
        keys_unique(second),
        pairs_map(second) == after_sync(
            pairs_map(first),
            removals_of(first, wanted_map(st)),
            downloads_of(pairs_map(first), st),
        ),
    ensures
        pairs_map(second) == wanted_map(st),
        downloads_of(pairs_map(second), st).len() == 0,
        removals_of(second, wanted_map(st)).len() == 0,
{
    lemma_selection_answers_distinct(ids, st);
    lemma_sync_reaches_wanted(first, st);
    lemma_sync_idempotent(second, st);
}

} // verus!

verus! {

/// The answers without a release.
pub open spec fn unreleased(st: Seq<Status>) -> Seq<Status> {
    st.filter(|s: Status| s is NotFound)
}

proof fn lemma_missing_is_filter(st: Seq<Status>)
    ensures
        missing_of(st) == unreleased(st).map_values(|s: Status| s->slug@),
    decreases st.len(),
{
    reveal(Seq::filter);
    if st.len() > 0 {
        let q = st.drop_last();
        lemma_missing_is_filter(q);
        if st.last() is NotFound {
            assert(unreleased(st) == unreleased(q).push(st.last()));
            assert(unreleased(st).map_values(|s: Status| s->slug@) =~= unreleased(q).map_values(
                |s: Status| s->slug@,
            ).push(st.last()->slug@));
        } else {
            assert(unreleased(st) == unreleased(q));
        }
    } else {
        assert(unreleased(st).map_values(|s: Status| s->slug@) =~= Seq::<Seq<char>>::empty());
    }
}

/// Every mod without a release is reported, once per such answer and in the
/// order of the answers: the missing list is the slugs of the answers
/// without a release, taken in order; it holds each of them and is exactly
/// as long as there are such answers.
pub proof fn lemma_missing_reports_every_unreleased(st: Seq<Status>)
    ensures
        missing_of(st) == unreleased(st).map_values(|s: Status| s->slug@),
        missing_of(st).len() == unreleased(st).len(),
        forall|i: int|
            0 <= i < st.len() && (#[trigger] st[i]) is NotFound ==> missing_of(st).contains(
                st[i]->slug@,
            ),
{
    broadcast use vstd::seq_lib::group_filter_ensures;

    lemma_missing_is_filter(st);
    assert forall|i: int| 0 <= i < st.len() && (#[trigger] st[i]) is NotFound implies missing_of(
        st,
    ).contains(st[i]->slug@) by {
        let f = unreleased(st);
        assert(f.contains(st[i]));
        let k = choose|k: int| 0 <= k < f.len() && f[k] == st[i];
        assert(missing_of(st)[k] == st[i]->slug@);
    }
}

} // verus!
