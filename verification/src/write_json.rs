//! The launcher's profiles file: the profile that starts the game with the
//! Quilt loader and the installer's mods, added beside the user's own.
use vstd::prelude::*;
use vstd::string::*;

verus! {

/// The Java arguments used when the latest-release profile gives none.
pub const VANILLA_ARGS: &'static str = "-Xmx2G -XX:+UnlockExperimentalVMOptions -XX:+UseG1GC -XX:G1NewSizePercent=20 -XX:G1ReservePercent=20 -XX:MaxGCPauseMillis=50 -XX:G1HeapRegionSize=32M";

/// The profile's icon, a small PNG image.
pub const ICON: &'static str = "data:image/png;base64,iVBORw0KGgoAAAANSUhEUgAAACAAAAAgBAMAAACBVGfHAAAAGFBMVEUAAAB7GWmyF1rqR1a3msT/nJfp0+r///+virVnAAAAAXRSTlMAQObYZgAAAI9JREFUKM990cENA0EIQ9FpgRbcglugBVr4Lbj9HCaRNtnZcHwSYMFaa63Vvb7rB5JS8QeiAqCfIA0C6yO/0CFJDQkcgWqSsTIlTpCSSJJoCAdAHqtqY/oOncgz492pIyTInrEK7kDtrci21AeQx+9olxwXWP0e2GRf4AaLRPYOV32CbSVb1TzAtsDloR94AcQTfFFwBa/NAAAAAElFTkSuQmCC";

/// One profile of the launcher. `extra` holds the profile's other fields,
/// each as its key and its JSON text.
#[derive(Clone, Debug, PartialEq, Eq)]
pub struct Profile {
    pub name: String,
    pub last_used: String,
    pub last_version_id: String,
    pub created: String,
    pub icon: String,
    pub kind: String,
    pub java_args: Option<String>,
    pub java_dir: Option<String>,
    pub extra: Vec<(String, String)>,
}

/// The launcher's profiles file: the profiles by key, and the other two
/// fields (`settings` as JSON text).
#[derive(Clone, Debug, PartialEq, Eq)]
pub struct LauncherProfiles {
    pub profiles: Vec<(String, Profile)>,
    pub settings: String,
    pub version: u8,
}

/// No key is used twice among a profile's other fields.
pub open spec fn extra_keys_unique(e: Seq<(String, String)>) -> bool {
    forall|i: int, j: int| 0 <= i < j < e.len() ==> (#[trigger] e[i]).0@ != (#[trigger] e[j]).0@
}

/// The profiles file as the launcher's JSON maps give it: no profile key is
/// used twice, nor any key among a profile's other fields.
pub open spec fn launcher_wf(l: LauncherProfiles) -> bool {
    &&& forall|i: int, j: int|
        0 <= i < j < l.profiles@.len() ==> (#[trigger] l.profiles@[i]).0@ != (#[trigger] l.profiles@[j]).0@
    &&& forall|i: int| 0 <= i < l.profiles@.len() ==> extra_keys_unique((#[trigger] l.profiles@[i]).1.extra@)
}

/// The launcher's own profile for the newest release.
pub open spec fn is_latest_release(p: Profile) -> bool {
    p.kind@ == "latest-release"@
}

/// `i` is the first profile for the newest release.
pub open spec fn first_release_at(ps: Seq<(String, Profile)>, i: int) -> bool {
    &&& 0 <= i < ps.len()
    &&& is_latest_release(ps[i].1)
    &&& forall|j: int| 0 <= j < i ==> !is_latest_release(#[trigger] ps[j].1)
}

/// The profile whose settings the new profile copies: the first for the
/// newest release.
pub open spec fn release_base(ps: Seq<(String, Profile)>) -> Option<Profile> {
    if exists|i: int| first_release_at(ps, i) {
        Some(ps[choose|i: int| first_release_at(ps, i)].1)
    } else {
        None
    }
}

/// The Java arguments taken over: those of the base profile, or the
/// vanilla ones where it gives none; none at all without a base profile.
pub open spec fn base_java_args(base: Option<Profile>) -> Seq<char> {
    match base {
        Some(p) => match p.java_args {
            Some(a) => a@,
            None => VANILLA_ARGS@,
        },
        None => Seq::empty(),
    }
}

/// The Java arguments of the new profile: the loader's mods and config
/// folders for the game version, then the arguments taken over.
pub open spec fn velvet_java_args(mc: Seq<char>, base: Option<Profile>) -> Seq<char> {
    "-Dloader.modsDir=.velvet/mods/"@ + mc + " -Dloader.configDir=.velvet/config/"@ + mc + " "@
        + base_java_args(base)
}

/// The key of the new profile.
pub open spec fn velvet_key(mc: Seq<char>) -> Seq<char> {
    "velvet-quilt-loader-"@ + mc
}

/// `p` is the profile for loader `velvet` on game version `mc`, made at
/// `time`, with the settings of `base` taken over.
pub open spec fn is_velvet_profile(
    p: Profile,
    mc: Seq<char>,
    velvet: Seq<char>,
    time: Seq<char>,
    base: Option<Profile>,
) -> bool {
    &&& p.name@ == "Velvet "@ + mc
    &&& p.last_used@ == time
    &&& p.created@ == time
    &&& p.last_version_id@ == "quilt-loader-"@ + velvet + "-"@ + mc
    &&& p.icon@ == ICON@
    &&& p.kind@ == "custom"@
    &&& p.java_args is Some && p.java_args->0@ == velvet_java_args(mc, base)
    &&& p.java_dir == (match base {
        Some(b) => b.java_dir,
        None => None,
    })
    &&& p.extra@ == (match base {
        Some(b) => b.extra@,
        None => Seq::empty(),
    })
}

/// `i` is the first profile under `key`.
pub open spec fn first_key_at(ps: Seq<(String, Profile)>, key: Seq<char>, i: int) -> bool {
    &&& 0 <= i < ps.len()
    &&& ps[i].0@ == key
    &&& forall|j: int| 0 <= j < i ==> (#[trigger] ps[j].0)@ != key
}

/// `new` is `old` with the profile for loader `velvet` on game version
/// `mc`, made at `time`, put under its key.
pub open spec fn velvet_profile_added(
    old: LauncherProfiles,
    new: LauncherProfiles,
    mc: Seq<char>,
    velvet: Seq<char>,
    time: Seq<char>,
) -> bool {
    let base = release_base(old.profiles@);
    let key = velvet_key(mc);
    &&& new.settings == old.settings
    &&& new.version == old.version
    &&& new.profiles@.len() >= 1
    &&& if exists|i: int| first_key_at(old.profiles@, key, i) {
        let i = choose|i: int| first_key_at(old.profiles@, key, i);
        &&& new.profiles@.len() == old.profiles@.len()
        &&& forall|j: int| 0 <= j < old.profiles@.len() && j != i ==> new.profiles@[j] == old.profiles@[j]
        &&& new.profiles@[i].0 == old.profiles@[i].0
        &&& is_velvet_profile(new.profiles@[i].1, mc, velvet, time, base)
    } else {
        let n = old.profiles@.len() as int;
        &&& new.profiles@.len() == n + 1
        &&& forall|j: int| 0 <= j < n ==> new.profiles@[j] == old.profiles@[j]
        &&& new.profiles@[n].0@ == key
        &&& is_velvet_profile(new.profiles@[n].1, mc, velvet, time, base)
    }
}


/// The first profile for the newest release.
fn find_release(ps: &Vec<(String, Profile)>) -> (r: Option<usize>)
    ensures
        match r {
            Some(i) => first_release_at(ps@, i as int),
            None => forall|i: int| 0 <= i < ps@.len() ==> !is_latest_release(#[trigger] ps@[i].1),
        },
{
    let wanted = String::from_str("latest-release");
    let mut i: usize = 0;
    while i < ps.len()
        invariant
            i <= ps@.len(),
            wanted@ == "latest-release"@,
            forall|j: int| 0 <= j < i ==> !is_latest_release(#[trigger] ps@[j].1),
        decreases ps@.len() - i,
    {
        if ps[i].1.kind == wanted {
            return Some(i);
        }
        i = i + 1;
    }
    None
}

/// The first profile under `key`.
fn find_key(ps: &Vec<(String, Profile)>, key: &String) -> (r: Option<usize>)
    ensures
        match r {
            Some(i) => first_key_at(ps@, key@, i as int),
            None => forall|i: int| 0 <= i < ps@.len() ==> (#[trigger] ps@[i].0)@ != key@,
        },
{
    let mut i: usize = 0;
    while i < ps.len()
        invariant
            i <= ps@.len(),
            forall|j: int| 0 <= j < i ==> (#[trigger] ps@[j].0)@ != key@,
        decreases ps@.len() - i,
    {
        if ps[i].0 == *key {
            return Some(i);
        }
        i = i + 1;
    }
    None
}

fn copy_text(s: &Option<String>) -> (r: Option<String>)
    ensures
        r == *s,
{
    match s {
        Some(t) => Some(t.clone()),
        None => None,
    }
}

fn copy_fields(v: &Vec<(String, String)>) -> (r: Vec<(String, String)>)
    ensures
        r@ == v@,
{
    let mut r: Vec<(String, String)> = Vec::new();
    let mut i: usize = 0;
    while i < v.len()
        invariant
            i <= v@.len(),
            r@ == v@.take(i as int),
        decreases v@.len() - i,
    {
        let (k, x) = &v[i];
        r.push((k.clone(), x.clone()));
        assert(v@.take(i + 1) =~= v@.take(i as int).push(v@[i as int]));
        i = i + 1;
    }
    assert(v@.take(v@.len() as int) =~= v@);
    r
}

/// The profile for loader `velvet` on game version `mc`, made at `time`,
/// with the Java settings and other fields of `base` taken over.
pub fn velvet_profile(mc: &String, velvet: &String, time: &String, base: Option<&Profile>) -> (r:
    Profile)
    ensures
        is_velvet_profile(
            r,
            mc@,
            velvet@,
            time@,
            match base {
                Some(b) => Some(*b),
                None => None,
            },
        ),
{
    let mut java_args = String::from_str("-Dloader.modsDir=.velvet/mods/");
    java_args.append(mc.as_str());
    java_args.append(" -Dloader.configDir=.velvet/config/");
    java_args.append(mc.as_str());
    java_args.append(" ");
    let (java_dir, extra) = match base {
        Some(b) => {
            match &b.java_args {
                Some(a) => java_args.append(a.as_str()),
                None => java_args.append(VANILLA_ARGS),
            }
            (copy_text(&b.java_dir), copy_fields(&b.extra))
        },
        None => (None, Vec::new()),
    };
    let mut last_version_id = String::from_str("quilt-loader-");
    last_version_id.append(velvet.as_str());
    last_version_id.append("-");
    last_version_id.append(mc.as_str());
    let mut name = String::from_str("Velvet ");
    name.append(mc.as_str());
    Profile {
        name,
        last_used: time.clone(),
        last_version_id,
        created: time.clone(),
        icon: String::from_str(ICON),
        kind: String::from_str("custom"),
        java_args: Some(java_args),
        java_dir,
        extra,
    }
}

/// Adds to the launcher's profiles the one for loader `velvet` on game
/// version `mc`, made at `time`. It takes over the Java settings and the
/// other fields of the first profile for the newest release, and replaces
/// a profile under the same key.
pub fn add_velvet_profile(mc: &String, velvet: &String, time: &String, launcher: LauncherProfiles) -> (r:
    LauncherProfiles)
    requires
        launcher_wf(launcher),
    ensures
        velvet_profile_added(launcher, r, mc@, velvet@, time@),
        launcher_wf(r),
{
    let ghost old = launcher;
    let LauncherProfiles { mut profiles, settings, version } = launcher;
    let base_index = find_release(&profiles);
    let profile = match base_index {
        Some(i) => velvet_profile(mc, velvet, time, Some(&profiles[i].1)),
        None => velvet_profile(mc, velvet, time, None),
    };
    proof {
        match base_index {
            Some(i) => {
                assert forall|j: int| first_release_at(old.profiles@, j) implies j == i by {
                    if j < i {
                        assert(!is_latest_release(old.profiles@[j].1));
                    } else if j > i {
                        assert(!is_latest_release(old.profiles@[i as int].1));
                    }
                }
                assert(first_release_at(old.profiles@, i as int));
                assert(release_base(old.profiles@) == Some(old.profiles@[i as int].1));
            },
            None => {
                assert(!exists|j: int| first_release_at(old.profiles@, j));
            },
        }
    }
    assert(extra_keys_unique(profile.extra@)) by {
        if let Some(i) = base_index {
            assert(extra_keys_unique(old.profiles@[i as int].1.extra@));
        }
    }
    let mut key = String::from_str("velvet-quilt-loader-");
    key.append(mc.as_str());
    match find_key(&profiles, &key) {
        Some(i) => {
            let ghost before = profiles@;
            proof {
                assert forall|j: int| first_key_at(before, key@, j) implies j == i by {
                    if j < i {
                        assert(before[j].0@ != key@);
                    } else if j > i {
                        assert(before[i as int].0@ != key@);
                    }
                }
            }
            let mut slot: Vec<(String, Profile)> = Vec::new();
            std::mem::swap(&mut slot, &mut profiles);
            let (k, _) = slot.remove(i);
            slot.insert(i, (k, profile));
            assert(slot@ =~= before.update(i as int, (before[i as int].0, profile)));
            LauncherProfiles { profiles: slot, settings, version }
        },
        None => {
            assert(!exists|j: int| first_key_at(profiles@, key@, j));
            profiles.push((key, profile));
            LauncherProfiles { profiles, settings, version }
        },
    }
}


/// The address of the loader's version profile for a game version.
pub open spec fn loader_profile_url_of(mc: Seq<char>, velvet: Seq<char>) -> Seq<char> {
    "https://meta.quiltmc.org/v3/versions/loader/"@ + mc + "/"@ + velvet + "/profile/json"@
}

/// The address of the loader's version profile for a game version.
pub fn loader_profile_url(mc: &String, velvet: &String) -> (r: String)
    ensures
        r@ == loader_profile_url_of(mc@, velvet@),
{
    let mut u = String::from_str("https://meta.quiltmc.org/v3/versions/loader/");
    u.append(mc.as_str());
    u.append("/");
    u.append(velvet.as_str());
    u.append("/profile/json");
    u
}

#[verifier::external_type_specification]
#[verifier::external_body]
pub struct ExJsonError(serde_json::Error);

/// The pretty-printed JSON of a body, if it holds a JSON document.
pub uninterp spec fn pretty_json(body: Seq<u8>) -> Option<Seq<u8>>;

/// Calls `serde_json::to_vec_pretty` on the body read as a JSON value (with
/// `serde_json::from_slice::<serde_json::Value>`).
/// Claimed: the outcome depends on the bytes alone; the error comes exactly
/// where the named result is absent. What counts as JSON and how it is
/// printed is not stated.
#[verifier::external_body]
fn reformat_json(body: &[u8]) -> (r: Result<Vec<u8>, serde_json::Error>)
    ensures
        r is Ok <==> pretty_json(body@) is Some,
        r matches Ok(v) ==> pretty_json(body@) == Some(v@),
{
    let value: serde_json::Value = serde_json::from_slice(body)?;
    serde_json::to_vec_pretty(&value)
}

/// A body that is not a JSON document, with serde_json's account of why.
pub struct JsonError(pub serde_json::Error);

/// The loader's version profile, as the installer writes it: the body that
/// Quilt's metadata server sent, pretty-printed.
pub fn version_profile(body: &[u8]) -> (r: Result<Vec<u8>, JsonError>)
    ensures
        r is Ok <==> pretty_json(body@) is Some,
        r matches Ok(v) ==> pretty_json(body@) == Some(v@),
{
    match reformat_json(body) {
        Ok(v) => Ok(v),
        Err(e) => Err(JsonError(e)),
    }
}

#[verifier::external_type_specification]
#[verifier::external_body]
pub struct ExSystemTime(std::time::SystemTime);

/// Calls `std::time::SystemTime::now`.
/// Nothing is claimed of the result: it is the system clock's reading.
#[verifier::external_body]
fn system_now() -> std::time::SystemTime {
    std::time::SystemTime::now()
}

/// Calls `SystemTime::duration_since(UNIX_EPOCH)` and gives the distance
/// from the Unix epoch as whole seconds and the nanoseconds beyond them:
/// `Ok` for a time at or after the epoch, `Err` for one before it (from
/// the error's `duration`). Claimed: the nanoseconds are below one billion,
/// as std documents for `Duration::subsec_nanos`. Which time it is depends on
/// the clock and is not stated.
#[verifier::external_body]
fn epoch_distance(t: &std::time::SystemTime) -> (r: Result<(u64, u32), (u64, u32)>)
    ensures
        match r {
            Ok((_, n)) => n < 1_000_000_000,
            Err((_, n)) => n < 1_000_000_000,
        },
{
    match t.duration_since(std::time::UNIX_EPOCH) {
        Ok(d) => Ok((d.as_secs(), d.subsec_nanos())),
        Err(e) => Err((e.duration().as_secs(), e.duration().subsec_nanos())),
    }
}

/// A Unix timestamp (seconds, and nanoseconds beyond them) from the
/// distance to the epoch: after it, the distance itself; before it, the
/// distance taken away, borrowing a second where there are nanoseconds.
pub open spec fn timestamp_of(distance: Result<(u64, u32), (u64, u32)>) -> (int, int) {
    match distance {
        Ok((s, n)) => (s as int, n as int),
        Err((s, n)) => if n == 0 {
            (-(s as int), 0)
        } else {
            (-(s as int) - 1, 1_000_000_000 - n)
        },
    }
}

/// The Unix timestamp of a distance to the epoch, where its seconds fit
/// in an `i64`.
pub fn unix_timestamp(distance: Result<(u64, u32), (u64, u32)>) -> (r: Option<(i64, u32)>)
    requires
        match distance {
            Ok((_, n)) => n < 1_000_000_000,
            Err((_, n)) => n < 1_000_000_000,
        },
    ensures
        match distance {
            Ok((s, _)) => r is Some <==> s <= i64::MAX,
            Err((s, _)) => r is Some <==> s <= i64::MAX,
        },
        r matches Some((s, n)) ==> (s as int, n as int) == timestamp_of(distance),
{
    match distance {
        Ok((s, n)) => if s <= 9_223_372_036_854_775_807u64 {
            Some((s as i64, n))
        } else {
            None
        },
        Err((s, n)) => if s <= 9_223_372_036_854_775_807u64 {
            let neg: i64 = -(s as i64);
            if n == 0 {
                Some((neg, 0))
            } else {
                Some((neg - 1, 1_000_000_000 - n))
            }
        } else {
            None
        },
    }
}

/// The text of a time in UTC as chrono writes it: the date and time, a
/// space and "UTC".
pub open spec fn utc_time_text(t: Seq<char>) -> bool {
    t.len() >= 4 && t.subrange(t.len() - 4, t.len() as int) == " UTC"@
}

/// The text that chrono writes for the UTC time of a Unix timestamp.
pub uninterp spec fn utc_text(secs: int, nanos: int) -> Seq<char>;

/// Calls `chrono::DateTime::<Utc>::from_timestamp` and writes the time with
/// `to_string`. Claimed: `None` exactly where chrono has no time for the
/// timestamp; otherwise the text depends on the timestamp alone and ends
/// with " UTC", since `Display` for a `DateTime` writes the date and time, a
/// space and the offset, and `Utc` writes itself as "UTC". Which timestamps
/// chrono has a time for is not stated.
#[verifier::external_body]
fn utc_text_at(secs: i64, nanos: u32) -> (r: Option<String>)
    ensures
        r matches Some(t) ==> t@ == utc_text(secs as int, nanos as int) && utc_time_text(t@),
{
    match chrono::DateTime::<chrono::Utc>::from_timestamp(secs, nanos) {
        Some(d) => Some(d.to_string()),
        None => None,
    }
}

/// The current time as chrono writes it in UTC, where the clock's reading
/// has a date chrono can hold (a clock before 1970 included).
pub fn now_text() -> (r: Option<String>)
    ensures
        r matches Some(t) ==> utc_time_text(t@),
{
    let now = system_now();
    let distance = epoch_distance(&now);
    match unix_timestamp(distance) {
        Some((secs, nanos)) => utc_text_at(secs, nanos),
        None => None,
    }
}

/// Adds to the launcher's profiles the one for loader `velvet` on game
/// version `mc`, stamped with the current time; `None` where the clock's
/// reading has no date (years beyond chrono's range).
pub fn write_profile(mc: &String, velvet: &String, launcher: LauncherProfiles) -> (r: Option<
    LauncherProfiles,
>)
    requires
        launcher_wf(launcher),
    ensures
        r matches Some(out) ==> launcher_wf(out) && exists|time: Seq<char>|
            utc_time_text(time) && velvet_profile_added(launcher, out, mc@, velvet@, time),
{
    match now_text() {
        Some(time) => Some(add_velvet_profile(mc, velvet, &time, launcher)),
        None => None,
    }
}

} // verus!

verus! {

/// Installing again for the same game version replaces the installer's
/// profile instead of adding another: the number of profiles stays the same.
pub proof fn lemma_reinstall_keeps_count(
    a: LauncherProfiles,
    b: LauncherProfiles,
    c: LauncherProfiles,
    mc: Seq<char>,
    velvet1: Seq<char>,
    velvet2: Seq<char>,
    time1: Seq<char>,
    time2: Seq<char>,
)
    requires
        velvet_profile_added(a, b, mc, velvet1, time1),
        velvet_profile_added(b, c, mc, velvet2, time2),
    ensures
        c.profiles@.len() == b.profiles@.len(),
{
    let key = velvet_key(mc);
    let ps = b.profiles@;
    let holder = if exists|i: int| first_key_at(a.profiles@, key, i) {
        choose|i: int| first_key_at(a.profiles@, key, i)
    } else {
        a.profiles@.len() as int
    };
    assert(ps[holder].0@ == key);
    lemma_first_match(ps, key, holder);
}

proof fn lemma_first_match(ps: Seq<(String, Profile)>, key: Seq<char>, k: int)
    requires
        0 <= k < ps.len(),
        ps[k].0@ == key,
    ensures
        exists|i: int| first_key_at(ps, key, i),
    decreases k,
{
    if forall|j: int| 0 <= j < k ==> (#[trigger] ps[j].0)@ != key {
        assert(first_key_at(ps, key, k));
    } else {
        let j = choose|j: int| 0 <= j < k && (#[trigger] ps[j].0)@ == key;
        lemma_first_match(ps, key, j);
    }
}

} // verus!

verus! {

proof fn lemma_first_key_unique(ps: Seq<(String, Profile)>, key: Seq<char>, i: int, j: int)
    requires
        first_key_at(ps, key, i),
        first_key_at(ps, key, j),
    ensures
        i == j,
{
    if i < j {
        assert(ps[i].0@ != key);
    } else if j < i {
        assert(ps[j].0@ != key);
    }
}

proof fn lemma_first_release_unique(ps: Seq<(String, Profile)>, i: int, j: int)
    requires
        first_release_at(ps, i),
        first_release_at(ps, j),
    ensures
        i == j,
{
    if i < j {
        assert(!is_latest_release(ps[i].1));
    } else if j < i {
        assert(!is_latest_release(ps[j].1));
    }
}

/// Two profiles agree in everything but the time they were made and used.
pub open spec fn same_but_time(p: Profile, q: Profile) -> bool {
    &&& p.name@ == q.name@
    &&& p.last_version_id@ == q.last_version_id@
    &&& p.icon@ == q.icon@
    &&& p.kind@ == q.kind@
    &&& p.java_args is Some && q.java_args is Some && p.java_args->0@ == q.java_args->0@
    &&& p.java_dir == q.java_dir
    &&& p.extra@ == q.extra@
}

/// Where the profile put under `key` stands after an add: in place of the
/// first profile under that key, or at the end.
pub open spec fn put_at(ps: Seq<(String, Profile)>, key: Seq<char>) -> int {
    if exists|i: int| first_key_at(ps, key, i) {
        choose|i: int| first_key_at(ps, key, i)
    } else {
        ps.len() as int
    }
}

/// Installing again for the same game version and loader changes only the
/// installer's profile, and that only in its times: every key stays, every
/// other profile stays, and no second installer profile appears. This
/// holds unless a profile for the newest release sits under the installer's
/// own key (the first add would replace it, so the second would copy other
/// settings).
pub proof fn lemma_reinstall_changes_only_times(
    a: LauncherProfiles,
    b: LauncherProfiles,
    c: LauncherProfiles,
    mc: Seq<char>,
    velvet: Seq<char>,
    time1: Seq<char>,
    time2: Seq<char>,
)
    requires
        velvet_profile_added(a, b, mc, velvet, time1),
        velvet_profile_added(b, c, mc, velvet, time2),
        forall|i: int|
            0 <= i < a.profiles@.len() && is_latest_release(#[trigger] a.profiles@[i].1)
                ==> a.profiles@[i].0@ != velvet_key(mc),
    ensures
        c.settings == b.settings,
        c.version == b.version,
        c.profiles@.len() == b.profiles@.len(),
        forall|j: int| 0 <= j < c.profiles@.len() ==> (#[trigger] c.profiles@[j]).0 == b.profiles@[j].0,
        ({
            let h = put_at(a.profiles@, velvet_key(mc));
            &&& 0 <= h < b.profiles@.len()
            &&& b.profiles@[h].0@ == velvet_key(mc)
            &&& forall|j: int| 0 <= j < b.profiles@.len() && j != h ==> #[trigger] c.profiles@[j] == b.profiles@[j]
            &&& same_but_time(b.profiles@[h].1, c.profiles@[h].1)
        }),
{
    let key = velvet_key(mc);
    let pa = a.profiles@;
    let pb = b.profiles@;
    let pc = c.profiles@;
    let n = pa.len() as int;
    let h = put_at(pa, key);
    reveal_strlit("custom");
    reveal_strlit("latest-release");
    // Before `h`, `b` has no profile under the key.
    if exists|i: int| first_key_at(pa, key, i) {
        assert(first_key_at(pa, key, h));
        assert(pb[h].1.kind@ == "custom"@);
    } else {
        assert(pb[h].1.kind@ == "custom"@);
        assert forall|j: int| 0 <= j < n implies pa[j].0@ != key by {
            if pa[j].0@ == key {
                lemma_first_match(pa, key, j);
            }
        }
    }
    assert("custom"@.len() != "latest-release"@.len());
    assert(!is_latest_release(pb[h].1));
    assert(first_key_at(pb, key, h));
    let hb = choose|i: int| first_key_at(pb, key, i);
    lemma_first_key_unique(pb, key, hb, h);
    // `b` has the same first profile for the newest release as `a`.
    assert forall|j: int| 0 <= j < pb.len() implies is_latest_release(#[trigger] pb[j].1) == (j < n
        && is_latest_release(pa[j].1)) by {
        if j != h {
            assert(pb[j] == pa[j]);
        } else if j < n {
            assert(pa[j].0@ == key);
        }
    }
    if exists|i: int| first_release_at(pa, i) {
        let i = choose|i: int| first_release_at(pa, i);
        assert(first_release_at(pb, i)) by {
            assert(pb[i] == pa[i]) by {
                if i == h {
                    assert(pa[i].0@ == key);
                }
            }
            assert forall|j: int| 0 <= j < i implies !is_latest_release(#[trigger] pb[j].1) by {
                assert(!is_latest_release(pa[j].1));
            }
        }
        let ib = choose|i: int| first_release_at(pb, i);
        lemma_first_release_unique(pb, i, ib);
        assert(pb[i] == pa[i]) by {
            if i == h {
                assert(pa[i].0@ == key);
            }
        }
        assert(release_base(pb) == release_base(pa));
    } else {
        assert forall|i: int| !first_release_at(pb, i) by {
            if first_release_at(pb, i) {
                assert(first_release_at(pa, i)) by {
                    assert(pb[i] == pa[i]);
                    assert forall|j: int| 0 <= j < i implies !is_latest_release(#[trigger] pa[j].1) by {
                        assert(!is_latest_release(pb[j].1));
                    }
                }
            }
        }
        assert(release_base(pb) == release_base(pa));
    }
    assert forall|j: int| 0 <= j < pc.len() implies (#[trigger] pc[j]).0 == pb[j].0 by {
        if j != h {
            assert(pc[j] == pb[j]);
        }
    }
}

} // verus!
