//! The Modrinth API: the addresses asked for a mod, and what its answer
//! means for the mod.
use crate::mod_index::{keys_unique, pairs_map};
use crate::sync::{
    after_sync, downloads_of, lemma_second_sync_does_nothing, removals_of, strs, wanted_map, Status,
};
use vstd::prelude::*;
use vstd::string::*;

verus! {

/// Where Modrinth's projects are served.
pub const MODRINTH_SERVER: &'static str = "https://api.modrinth.com/v2/project";

/// The text that `{:?}` writes for a string.
pub uninterp spec fn debug_text(s: Seq<char>) -> Seq<char>;

/// A character that `{:?}` writes as it is: printable ASCII that is neither
/// a quote nor a backslash (here: letters, digits and `.-_+` and space).
pub open spec fn plain_char(c: char) -> bool {
    ('a' <= c && c <= 'z') || ('A' <= c && c <= 'Z') || ('0' <= c && c <= '9') || c == '.' || c
        == '-' || c == '_' || c == '+' || c == ' '
}

/// Calls `<String as Debug>::fmt` through `format!("{:?}", ..)`.
/// Claimed: the result depends on the text alone; and, as std documents for
/// `char::escape_debug`, a string of plain characters is written between
/// double quotes with nothing escaped. What other characters become is not
/// stated.
#[verifier::external_body]
fn debug_quoted(s: &String) -> (r: String)
    ensures
        r@ == debug_text(s@),
        (forall|i: int| 0 <= i < s@.len() ==> plain_char(#[trigger] s@[i])) ==> r@ == seq!['"'] + s@
            + seq!['"'],
{
    format!("{:?}", s)
}

/// The address of a project.
pub open spec fn project_url_of(id: Seq<char>) -> Seq<char> {
    MODRINTH_SERVER@ + "/"@ + id
}

/// The address of a project's releases for Fabric and Quilt on the game
/// versions written (as a JSON list item) by `quoted`.
pub open spec fn version_query_url_of(id: Seq<char>, quoted: Seq<char>) -> Seq<char> {
    project_url_of(id) + "/version?loaders=[\"fabric\", \"quilt\"]&game_versions=["@ + quoted
        + "]"@
}

/// The address of a project's releases for Fabric and Quilt on one game
/// version.
pub open spec fn versions_url_of(id: Seq<char>, mc_version: Seq<char>) -> Seq<char> {
    version_query_url_of(id, debug_text(mc_version))
}

/// The address of a project.
pub fn project_url(id: &str) -> (r: String)
    ensures
        r@ == project_url_of(id@),
{
    let mut u = String::from_str(MODRINTH_SERVER);
    u.append("/");
    u.append(id);
    u
}

/// The address of a project's releases for the game versions that
/// `quoted` writes.
pub fn version_query_url(id: &str, quoted: &str) -> (r: String)
    ensures
        r@ == version_query_url_of(id@, quoted@),
{
    let mut u = project_url(id);
    u.append("/version?loaders=[\"fabric\", \"quilt\"]&game_versions=[");
    u.append(quoted);
    u.append("]");
    u
}

/// The address of a project's releases for the game version, which is
/// written as Rust's `{:?}` writes a string.
pub fn versions_url(id: &str, mc_version: &String) -> (r: String)
    ensures
        r@ == versions_url_of(id@, mc_version@),
        (forall|i: int| 0 <= i < mc_version@.len() ==> plain_char(#[trigger] mc_version@[i])) ==> r@
            == version_query_url_of(id@, seq!['"'] + mc_version@ + seq!['"']),
{
    let v = debug_quoted(mc_version);
    version_query_url(id, v.as_str())
}

/// One file of a release.
#[derive(Clone, Debug, PartialEq, Eq)]
pub struct VersionFile {
    pub url: String,
    pub sha1: String,
}

/// One release of a project, newest first in Modrinth's answer.
#[derive(Clone, Debug, PartialEq, Eq)]
pub struct Version {
    pub files: Vec<VersionFile>,
}

/// What the releases of a project mean for the mod: the first file of the
/// newest release, or, where there is none, the project's slug.
pub fn latest_status(id: &String, slug: &String, versions: &Vec<Version>) -> (r: Status)
    ensures
        versions@.len() > 0 && versions@[0].files@.len() > 0 ==> r == (Status::Found {
            id: *id,
            url: versions@[0].files@[0].url,
            sha1: versions@[0].files@[0].sha1,
        }),
        !(versions@.len() > 0 && versions@[0].files@.len() > 0) ==> r == (Status::NotFound {
            slug: *slug,
        }),
{
    if versions.len() > 0 && versions[0].files.len() > 0 {
        let file = &versions[0].files[0];
        Status::Found { id: id.clone(), url: file.url.clone(), sha1: file.sha1.clone() }
    } else {
        Status::NotFound { slug: slug.clone() }
    }
}

} // verus!

verus! {

/// What Modrinth said of one mod: the project's slug and its releases,
/// newest first.
#[derive(Clone, Debug, PartialEq, Eq)]
pub struct Reply {
    pub slug: String,
    pub versions: Vec<Version>,
}

/// `st` is what the reply means for the mod `id` (see `latest_status`).
pub open spec fn answer_of(id: String, reply: Reply, st: Status) -> bool {
    let vs = reply.versions@;
    if vs.len() > 0 && vs[0].files@.len() > 0 {
        st == (Status::Found { id: id, url: vs[0].files@[0].url, sha1: vs[0].files@[0].sha1 })
    } else {
        st == (Status::NotFound { slug: reply.slug })
    }
}

/// Modrinth's answers for the selected mods, one per mod, in the order of
/// the selection.
pub fn answers(ids: &Vec<String>, replies: &Vec<Reply>) -> (r: Vec<Status>)
    requires
        ids@.len() == replies@.len(),
    ensures
        r@.len() == ids@.len(),
        forall|i: int| 0 <= i < r@.len() ==> answer_of(ids@[i], replies@[i], #[trigger] r@[i]),
        forall|i: int| 0 <= i < r@.len() && (#[trigger] r@[i]) is Found ==> r@[i]->id@ == ids@[i]@,
        forall|i: int|
            #![trigger r@[i]]
            0 <= i < r@.len() ==> (has_release_file(replies@[i]) <==> r@[i] is Found),
        forall|i: int|
            #![trigger r@[i]]
            0 <= i < r@.len() && r@[i] is Found ==> r@[i]->url == replies@[i].versions@[0].files@[0].url
                && r@[i]->sha1 == replies@[i].versions@[0].files@[0].sha1,
        forall|i: int|
            #![trigger r@[i]]
            0 <= i < r@.len() && r@[i] is NotFound ==> r@[i]->slug == replies@[i].slug,
{
    let mut r: Vec<Status> = Vec::new();
    let mut i: usize = 0;
    while i < ids.len()
        invariant
            i <= ids@.len(),
            ids@.len() == replies@.len(),
            r@.len() == i,
            forall|j: int| 0 <= j < i ==> answer_of(ids@[j], replies@[j], #[trigger] r@[j]),
            forall|j: int| 0 <= j < i && (#[trigger] r@[j]) is Found ==> r@[j]->id@ == ids@[j]@,
        decreases ids@.len() - i,
    {
        let st = latest_status(&ids[i], &replies[i].slug, &replies[i].versions);
        r.push(st);
        i = i + 1;
    }
    proof {
        assert forall|i: int| 0 <= i < r@.len() implies #[trigger] answer_tells(ids@[i], replies@[i], r@[i]) by {
            lemma_answer_takes_newest(ids@[i], replies@[i], r@[i]);
        }
    }
    r
}

/// The reply lists a release, and the newest one has a file.
pub open spec fn has_release_file(reply: Reply) -> bool {
    reply.versions@.len() > 0 && reply.versions@[0].files@.len() > 0
}

/// What an answer tells of a reply: found exactly when the newest release
/// (the first listed) has a file, and then with the mod's identifier and
/// that release's first file; otherwise missing, under the project's slug.
pub open spec fn answer_tells(id: String, reply: Reply, st: Status) -> bool {
    &&& has_release_file(reply) <==> st is Found
    &&& st is Found ==> st->id == id && st->url == reply.versions@[0].files@[0].url && st->sha1
        == reply.versions@[0].files@[0].sha1
    &&& st is NotFound ==> st->slug == reply.slug
}

/// An answer installs the newest release: whatever older releases follow
/// it, the answer is found exactly when the first listed release has a
/// file, and then it is that release's first file.
pub proof fn lemma_answer_takes_newest(id: String, reply: Reply, st: Status)
    requires
        answer_of(id, reply, st),
    ensures
        answer_tells(id, reply, st),
{
}

} // verus!

verus! {

/// The installer run twice with Modrinth's replies unchanged: the mods of
/// the selection (`selected_mods`), their answers (`answers`), a first plan
/// carried out on the folder, and a second plan on the folder that results.
/// The folder then holds exactly the wanted releases, and the second plan
/// fetches nothing and removes nothing; its missing slugs,
/// `missing_of(st)`, are those of the first run.
pub proof fn lemma_rerun_does_nothing(
    selected: Seq<String>,
    replies: Seq<Reply>,
    st: Seq<Status>,
    first: Seq<(Seq<char>, Seq<char>)>,
    second: Seq<(Seq<char>, Seq<char>)>,
)
    requires
        strs(selected).no_duplicates(),
        selected.len() == replies.len(),
        st.len() == selected.len(),
        forall|i: int| 0 <= i < st.len() ==> answer_of(selected[i], replies[i], #[trigger] st[i]),
        keys_unique(first),
        keys_unique(second),
        pairs_map(second) == after_sync(
            pairs_map(first),
            removals_of(first, wanted_map(st)),
            downloads_of(pairs_map(first), st),
        ),
    ensures
        pairs_map(second) == wanted_map(st),
        downloads_of(pairs_map(second), st).len() == 0,
        removals_of(second, wanted_map(st)).len() == 0,
{
    let ids = strs(selected);
    assert forall|i: int| 0 <= i < st.len() && #[trigger] st[i] is Found implies st[i]->id@ == ids[i] by {
        assert(answer_of(selected[i], replies[i], st[i]));
    }
    lemma_second_sync_does_nothing(ids, st, first, second);
}

} // verus!
