//! The installer window's state and how each message changes it, with the
//! outside work (fetching versions, installing, resizing the window) that a
//! change asks for.
use crate::sync::strs;
use vstd::prelude::*;
use vstd::string::*;

verus! {

/// Where an installation stands.
#[derive(Clone, Debug, PartialEq, Eq)]
pub enum Status {
    Idle,
    Installing,
    NoVersion,
    /// Finished; the slugs of the mods without a release for the version.
    Success(Vec<String>),
    /// Failed, with the error's text.
    Failure(String),
}

/// What the window receives.
#[derive(Debug, PartialEq, Eq)]
pub enum Message {
    /// The game versions to choose from, newest first.
    Populate(Vec<String>),
    /// A game version was chosen.
    Update(String),
    /// Snapshots are shown or hidden.
    Snapshot(bool),
    /// The performance list is chosen or not.
    VButton(bool),
    /// The visual list is chosen or not.
    BButton(bool),
    /// The resource-pack parity list is chosen or not.
    OButton(bool),
    /// The install button was pressed.
    Pressed,
    /// An installation ended: the slugs of the unavailable mods, or an error.
    Done(Result<Vec<String>, String>),
}

/// Two messages say the same: the same kind, with texts and lists of the
/// same contents.
pub open spec fn same_message(a: Message, b: Message) -> bool {
    match (a, b) {
        (Message::Populate(x), Message::Populate(y)) => x@ == y@,
        (Message::Update(x), Message::Update(y)) => x == y,
        (Message::Snapshot(x), Message::Snapshot(y)) => x == y,
        (Message::VButton(x), Message::VButton(y)) => x == y,
        (Message::BButton(x), Message::BButton(y)) => x == y,
        (Message::OButton(x), Message::OButton(y)) => x == y,
        (Message::Pressed, Message::Pressed) => true,
        (Message::Done(Ok(x)), Message::Done(Ok(y))) => x@ == y@,
        (Message::Done(Err(x)), Message::Done(Err(y))) => x == y,
        _ => false,
    }
}

impl Clone for Message {
    fn clone(&self) -> (r: Message)
        ensures
            same_message(r, *self),
    {
        match self {
            Message::Populate(v) => Message::Populate(copy_strings(v)),
            Message::Update(v) => Message::Update(v.clone()),
            Message::Snapshot(b) => Message::Snapshot(*b),
            Message::VButton(b) => Message::VButton(*b),
            Message::BButton(b) => Message::BButton(*b),
            Message::OButton(b) => Message::OButton(*b),
            Message::Pressed => Message::Pressed,
            Message::Done(Ok(v)) => Message::Done(Ok(copy_strings(v))),
            Message::Done(Err(e)) => Message::Done(Err(e.clone())),
        }
    }
}

/// A copy of a list of strings.
pub fn copy_strings(v: &Vec<String>) -> (r: Vec<String>)
    ensures
        r@ == v@,
{
    let mut r: Vec<String> = Vec::new();
    let mut i: usize = 0;
    while i < v.len()
        invariant
            i <= v@.len(),
            r@ == v@.take(i as int),
        decreases v@.len() - i,
    {
        r.push(v[i].clone());
        assert(v@.take(i + 1) =~= v@.take(i as int).push(v@[i as int]));
        i = i + 1;
    }
    assert(v@.take(v@.len() as int) =~= v@);
    r
}

/// The outside work that a change of state asks for.
#[derive(Clone, Debug, PartialEq, Eq)]
pub enum Action {
    Nothing,
    /// Fetch the game versions, with snapshots or without.
    Populate(bool),
    /// Install the loader and the chosen lists for the game version, and
    /// give the window its normal size.
    Install { version: String, vanilla: bool, beauty: bool, optifine: bool },
    /// Make the window taller, to show a message under the button.
    Expand,
}

/// The installer window.
#[derive(Clone, Debug, PartialEq, Eq)]
pub struct Velvet {
    pub version_list: Vec<String>,
    pub snapshot: bool,
    pub version: Option<String>,
    pub vanilla: bool,
    pub beauty: bool,
    pub optifine: bool,
    pub status: Status,
}

/// The window's title for a chosen version.
pub open spec fn title_of(version: Option<String>) -> Seq<char> {
    match version {
        None => "Velvet Installer"@,
        Some(v) => "Velvet Installer - "@ + v@,
    }
}

/// How a message changes the window, and the work it asks for.
pub open spec fn update_spec(old: Velvet, message: Message, new: Velvet, action: Action) -> bool {
    match message {
        Message::Populate(list) => {
            &&& new == Velvet { version: Some(list[0]), version_list: list, ..old }
            &&& action == Action::Nothing
        },
        Message::Update(v) => {
            &&& new == Velvet { version: Some(v), ..old }
            &&& action == Action::Nothing
        },
        Message::Snapshot(b) => {
            &&& new == Velvet { snapshot: b, ..old }
            &&& action == Action::Populate(b)
        },
        Message::VButton(b) => new == Velvet { vanilla: b, ..old } && action == Action::Nothing,
        Message::BButton(b) => new == Velvet { beauty: b, ..old } && action == Action::Nothing,
        Message::OButton(b) => new == Velvet { optifine: b, ..old } && action == Action::Nothing,
        Message::Pressed => match old.version {
            Some(v) => {
                &&& new == Velvet { status: Status::Installing, ..old }
                &&& action == (Action::Install {
                    version: v,
                    vanilla: old.vanilla,
                    beauty: old.beauty,
                    optifine: old.optifine,
                })
            },
            None => new == Velvet { status: Status::NoVersion, ..old } && action == Action::Nothing,
        },
        Message::Done(Ok(missing)) => {
            &&& new == Velvet { status: Status::Success(missing), ..old }
            &&& action == if missing@.len() > 0 {
                Action::Expand
            } else {
                Action::Nothing
            }
        },
        Message::Done(Err(e)) => {
            &&& new == Velvet { status: Status::Failure(e), ..old }
            &&& action == Action::Expand
        },
    }
}

/// A message that the window can take: a list of versions is never empty.
pub open spec fn message_ok(message: Message) -> bool {
    match message {
        Message::Populate(list) => list@.len() > 0,
        _ => true,
    }
}

impl Velvet {
    /// The window as it opens, and the fetch of the stable game versions.
    pub fn new() -> (r: (Velvet, Action))
        ensures
            r.0.version_list@.len() == 0,
            !r.0.snapshot,
            r.0.version is None,
            r.0.vanilla,
            !r.0.beauty,
            !r.0.optifine,
            r.0.status == Status::Idle,
            r.1 == Action::Populate(false),
    {
        (
            Velvet {
                version_list: Vec::new(),
                snapshot: false,
                version: None,
                vanilla: true,
                beauty: false,
                optifine: false,
                status: Status::Idle,
            },
            Action::Populate(false),
        )
    }

    /// The window's title.
    pub fn title(&self) -> (r: String)
        ensures
            r@ == title_of(self.version),
    {
        match &self.version {
            None => String::from_str("Velvet Installer"),
            Some(value) => {
                let mut t = String::from_str("Velvet Installer - ");
                t.append(value.as_str());
                t
            },
        }
    }

    /// Takes a message: changes the window and says what work to start.
    pub fn update(&mut self, message: Message) -> (r: Action)
        requires
            message_ok(message),
        ensures
            update_spec(*old(self), message, *final(self), r),
            r is Populate <==> message is Snapshot,
            r is Populate ==> r->Populate_0 == final(self).snapshot,
    {
        match message {
            Message::Populate(value) => {
                self.version = Some(value[0].clone());
                self.version_list = value;
            },
            Message::Update(value) => self.version = Some(value),
            Message::Snapshot(value) => {
                self.snapshot = value;
                return Action::Populate(value);
            },
            Message::VButton(value) => self.vanilla = value,
            Message::BButton(value) => self.beauty = value,
            Message::OButton(value) => self.optifine = value,
            Message::Pressed => {
                match &self.version {
                    Some(value) => {
                        let version = value.clone();
                        self.status = Status::Installing;
                        return Action::Install {
                            version,
                            vanilla: self.vanilla,
                            beauty: self.beauty,
                            optifine: self.optifine,
                        };
                    },
                    None => self.status = Status::NoVersion,
                }
            },
            Message::Done(value) => match value {
                Ok(x) => {
                    let missing_mods = x.len() > 0;
                    self.status = Status::Success(x);
                    if missing_mods {
                        return Action::Expand;
                    }
                },
                Err(e) => {
                    self.status = Status::Failure(e);
                    return Action::Expand;
                },
            },
        }
        Action::Nothing
    }
}

/// A message under the install button.
#[derive(Clone, Debug, PartialEq, Eq)]
pub enum Notice {
    /// A tooltip that lists the unavailable mods.
    Unavailable(String),
    /// The error of a failed installation.
    Error(String),
}

/// The words joined with ", ".
pub open spec fn join_comma(words: Seq<Seq<char>>) -> Seq<char>
    decreases words.len(),
{
    if words.len() == 0 {
        Seq::empty()
    } else if words.len() == 1 {
        words[0]
    } else {
        join_comma(words.drop_last()) + ", "@ + words.last()
    }
}

/// The words joined with ", ".
pub fn join_names(names: &Vec<String>) -> (r: String)
    ensures
        r@ == join_comma(strs(names@)),
{
    let mut r = String::new();
    let ghost w = strs(names@);
    let mut i: usize = 0;
    while i < names.len()
        invariant
            i <= names@.len(),
            w == strs(names@),
            r@ == join_comma(w.take(i as int)),
        decreases names@.len() - i,
    {
        assert(w.take(i + 1).drop_last() =~= w.take(i as int));
        assert(w.take(i + 1).last() == names@[i as int]@);
        if i > 0 {
            r.append(", ");
        } else {
            assert(w.take(0) =~= Seq::<Seq<char>>::empty());
        }
        r.append(names[i].as_str());
        i = i + 1;
    }
    assert(w.take(names@.len() as int) =~= w);
    r
}

/// The install button's words.
pub open spec fn button_label_of(status: Status) -> Seq<char> {
    match status {
        Status::Idle => "Install"@,
        Status::Installing => "Installing..."@,
        Status::NoVersion => "No version selected!"@,
        Status::Success(_) => "Finished!"@,
        Status::Failure(_) => "Error!"@,
    }
}

/// The install button's words.
pub fn button_label(status: &Status) -> (r: &'static str)
    ensures
        r@ == button_label_of(*status),
{
    match status {
        Status::Idle => "Install",
        Status::Installing => "Installing...",
        Status::NoVersion => "No version selected!",
        Status::Success(_) => "Finished!",
        Status::Failure(_) => "Error!",
    }
}

/// The message under the install button: the unavailable mods after a
/// success that left some out, or the error after a failure.
pub fn notice(status: &Status) -> (r: Option<Notice>)
    ensures
        match *status {
            Status::Success(mods) => if mods@.len() > 0 {
                r matches Some(Notice::Unavailable(t)) && t@ == join_comma(strs(mods@))
            } else {
                r is None
            },
            Status::Failure(e) => r == Some(Notice::Error(e)),
            _ => r is None,
        },
{
    match status {
        Status::Success(mods) => if mods.len() > 0 {
            Some(Notice::Unavailable(join_names(mods)))
        } else {
            None
        },
        Status::Failure(e) => Some(Notice::Error(e.clone())),
        _ => None,
    }
}

/// Whether a text holds the character.
pub fn has_char(s: &str, c: char) -> (r: bool)
    ensures
        r == s@.contains(c),
{
    let n = s.unicode_len();
    let mut i: usize = 0;
    while i < n
        invariant
            n == s@.len(),
            i <= n,
            forall|j: int| 0 <= j < i ==> s@[j] != c,
        decreases n - i,
    {
        if s.get_char(i) == c {
            return true;
        }
        i = i + 1;
    }
    false
}

/// The loader version to install: the first listed one that is not a
/// pre-release (has no '-'), or none.
pub open spec fn first_stable(versions: Seq<Seq<char>>) -> Seq<char>
    decreases versions.len(),
{
    if versions.len() == 0 {
        Seq::empty()
    } else if !versions[0].contains('-') {
        versions[0]
    } else {
        first_stable(versions.drop_first())
    }
}

/// The loader version to install, from the loader versions newest first:
/// the first without a '-', or the empty text.
pub fn pick_quilt_version(versions: &Vec<String>) -> (r: String)
    ensures
        r@ == first_stable(strs(versions@)),
        !r@.contains('-'),
        forall|j: int|
            0 <= j < versions@.len() && !(#[trigger] versions@[j])@.contains('-') && (forall|k: int|
                0 <= k < j ==> versions@[k]@.contains('-')) ==> r@ == versions@[j]@,
        (forall|j: int| 0 <= j < versions@.len() ==> (#[trigger] versions@[j])@.contains('-')) ==> r@.len()
            == 0,
{
    proof {
        lemma_pick_is_first_without_dash(strs(versions@));
        let w = strs(versions@);
        assert forall|j: int|
            0 <= j < versions@.len() && !(#[trigger] versions@[j])@.contains('-') && (forall|k: int|
                0 <= k < j ==> versions@[k]@.contains('-')) implies first_stable(w) == versions@[j]@ by {
            assert(w[j] == versions@[j]@);
            assert forall|k: int| 0 <= k < j implies w[k].contains('-') by {
                assert(w[k] == versions@[k]@);
            }
        }
        assert((forall|j: int| 0 <= j < versions@.len() ==> (#[trigger] versions@[j])@.contains('-'))
            ==> first_stable(w).len() == 0) by {
            if forall|j: int| 0 <= j < versions@.len() ==> (#[trigger] versions@[j])@.contains('-') {
                assert forall|j: int| 0 <= j < w.len() implies (#[trigger] w[j]).contains('-') by {
                    assert(w[j] == versions@[j]@);
                }
            }
        }
    }
    let ghost w = strs(versions@);
    assert(w.skip(0) =~= w);
    let mut i: usize = 0;
    while i < versions.len()
        invariant
            i <= versions@.len(),
            w == strs(versions@),
            first_stable(w) == first_stable(w.skip(i as int)),
            forall|j: int|
                0 <= j < versions@.len() && !(#[trigger] versions@[j])@.contains('-') && (forall|k: int|
                    0 <= k < j ==> versions@[k]@.contains('-')) ==> first_stable(w) == versions@[j]@,
            !first_stable(w).contains('-'),
        decreases versions@.len() - i,
    {
        assert(w.skip(i as int)[0] == versions@[i as int]@);
        assert(w.skip(i as int).drop_first() =~= w.skip(i + 1));
        if !has_char(versions[i].as_str(), '-') {
            return versions[i].clone();
        }
        i = i + 1;
    }
    assert(w.skip(i as int) =~= Seq::<Seq<char>>::empty());
    String::new()
}

/// A game version as Quilt's metadata lists it.
#[derive(Clone, Debug, PartialEq, Eq)]
pub struct GameVersion {
    pub version: String,
    pub stable: bool,
}

/// The versions offered: all with snapshots, else the stable ones.
pub open spec fn offered(snapshots: bool, versions: Seq<GameVersion>) -> Seq<Seq<char>>
    decreases versions.len(),
{
    if versions.len() == 0 {
        Seq::empty()
    } else {
        let rest = offered(snapshots, versions.drop_last());
        if snapshots || versions.last().stable {
            rest.push(versions.last().version@)
        } else {
            rest
        }
    }
}

/// The game versions to offer, in the listed order.
pub fn offered_versions(snapshots: bool, versions: &Vec<GameVersion>) -> (r: Vec<String>)
    ensures
        strs(r@) == offered(snapshots, versions@),
{
    let mut r: Vec<String> = Vec::new();
    let mut i: usize = 0;
    while i < versions.len()
        invariant
            i <= versions@.len(),
            strs(r@) == offered(snapshots, versions@.take(i as int)),
        decreases versions@.len() - i,
    {
        assert(versions@.take(i + 1).drop_last() =~= versions@.take(i as int));
        let value = &versions[i];
        if snapshots || value.stable {
            let ghost before = strs(r@);
            r.push(value.version.clone());
            assert(strs(r@) =~= before.push(value.version@));
        }
        i = i + 1;
    }
    assert(versions@.take(versions@.len() as int) =~= versions@);
    r
}

} // verus!

verus! {

/// Once a game version is chosen, no message takes the choice away.
pub proof fn lemma_version_stays_chosen(old: Velvet, message: Message, new: Velvet, action: Action)
    requires
        update_spec(old, message, new, action),
        old.version is Some,
    ensures
        new.version is Some,
{
}

/// The window's invariant: an installation runs only for a chosen version.
pub open spec fn installing_has_version(v: Velvet) -> bool {
    v.status == Status::Installing ==> v.version is Some
}

/// Every message keeps the invariant (which holds of the window as it
/// opens, idle).
pub proof fn lemma_installing_has_version(old: Velvet, message: Message, new: Velvet, action: Action)
    requires
        installing_has_version(old),
        update_spec(old, message, new, action),
    ensures
        installing_has_version(new),
{
}

/// An installation is asked for exactly when the button is pressed with a
/// version chosen, and it installs that version with the chosen lists.
pub proof fn lemma_install_only_when_pressed(
    old: Velvet,
    message: Message,
    new: Velvet,
    action: Action,
)
    requires
        update_spec(old, message, new, action),
    ensures
        action is Install <==> (message is Pressed && old.version is Some),
        action is Install ==> action->version == old.version->0 && action->vanilla == old.vanilla
            && action->beauty == old.beauty && action->optifine == old.optifine,
{
}

} // verus!

verus! {

/// The versions' names, in order.
pub open spec fn version_names(vs: Seq<GameVersion>) -> Seq<Seq<char>> {
    vs.map_values(|v: GameVersion| v.version@)
}

/// The stable versions, in order.
pub open spec fn stable_versions(vs: Seq<GameVersion>) -> Seq<GameVersion> {
    vs.filter(|v: GameVersion| v.stable)
}

proof fn lemma_stable_in_list(vs: Seq<GameVersion>)
    ensures
        forall|k: int|
            0 <= k < stable_versions(vs).len() ==> (#[trigger] stable_versions(vs)[k]).stable
                && vs.contains(stable_versions(vs)[k]),
    decreases vs.len(),
{
    reveal(Seq::filter);
    if vs.len() > 0 {
        let q = vs.drop_last();
        lemma_stable_in_list(q);
        let x = vs.last();
        if x.stable {
            assert(stable_versions(vs) == stable_versions(q).push(x));
        } else {
            assert(stable_versions(vs) == stable_versions(q));
        }
        assert forall|k: int| 0 <= k < stable_versions(vs).len() implies (#[trigger] stable_versions(
            vs,
        )[k]).stable && vs.contains(stable_versions(vs)[k]) by {
            if k < stable_versions(q).len() {
                assert(stable_versions(vs)[k] == stable_versions(q)[k]);
                let i = choose|i: int| 0 <= i < q.len() && q[i] == stable_versions(q)[k];
                assert(vs[i] == q[i]);
            } else {
                assert(vs[vs.len() - 1] == x);
            }
        }
    }
}

proof fn lemma_offered_filter(vs: Seq<GameVersion>)
    ensures
        offered(true, vs) == version_names(vs),
        offered(false, vs) == version_names(stable_versions(vs)),
    decreases vs.len(),
{
    reveal(Seq::filter);
    if vs.len() > 0 {
        let q = vs.drop_last();
        lemma_offered_filter(q);
        let x = vs.last();
        assert(version_names(vs) =~= version_names(q).push(x.version@));
        if x.stable {
            assert(stable_versions(vs) == stable_versions(q).push(x));
            assert(version_names(stable_versions(vs)) =~= version_names(stable_versions(q)).push(
                x.version@,
            ));
        } else {
            assert(stable_versions(vs) == stable_versions(q));
        }
    } else {
        assert(version_names(vs) =~= Seq::<Seq<char>>::empty());
        assert(version_names(stable_versions(vs)) =~= Seq::<Seq<char>>::empty());
    }
}

/// With snapshots every listed version is offered, in the listed order;
/// without, exactly the stable ones, in the listed order (a subsequence of
/// the former), each of which is a stable version of the list.
/// (`stable_versions` is the list filtered, so it keeps the listed order.)
pub proof fn lemma_snapshots_offer_more(vs: Seq<GameVersion>)
    ensures
        offered(true, vs) == version_names(vs),
        offered(false, vs) == version_names(stable_versions(vs)),
        forall|k: int|
            0 <= k < stable_versions(vs).len() ==> (#[trigger] stable_versions(vs)[k]).stable
                && vs.contains(stable_versions(vs)[k]),
{
    lemma_offered_filter(vs);
    lemma_stable_in_list(vs);
}

/// What to do with the folder taken for the game's folder.
#[derive(Clone, Copy, Debug, PartialEq, Eq)]
pub enum FolderStep {
    /// It is a folder: install into it.
    Use,
    /// It is not: ask the user for the folder.
    Ask,
}

/// What to do with the folder taken for the game's folder, given whether
/// it is a folder.
pub fn folder_step(is_dir: bool) -> (r: FolderStep)
    ensures
        is_dir ==> r == FolderStep::Use,
        !is_dir ==> r == FolderStep::Ask,
{
    if is_dir {
        FolderStep::Use
    } else {
        FolderStep::Ask
    }
}

/// The user closed the folder dialog without choosing.
#[derive(Clone, Copy, Debug, PartialEq, Eq)]
pub enum PickError {
    NoFolder,
}

impl PickError {
    /// The message shown for the error.
    pub fn message(&self) -> (r: String)
        ensures
            r@ == "Select a folder!"@,
    {
        match self {
            PickError::NoFolder => String::from_str("Select a folder!"),
        }
    }
}

/// The answer of the folder dialog: the chosen folder, to be checked
/// again, or the error that ends the installation.
pub fn picked_folder<P>(picked: Option<P>) -> (r: Result<P, PickError>)
    ensures
        picked is Some ==> r == Ok::<P, PickError>(picked->0),
        picked is None ==> r == Err::<P, PickError>(PickError::NoFolder),
{
    match picked {
        Some(p) => Ok(p),
        None => Err(PickError::NoFolder),
    }
}

} // verus!

verus! {

/// Versions are fetched again exactly when the snapshot box is toggled,
/// and then with snapshots exactly when the box is now ticked.
pub proof fn lemma_refetch_follows_snapshot(old: Velvet, message: Message, new: Velvet, action: Action)
    requires
        update_spec(old, message, new, action),
    ensures
        action is Populate <==> message is Snapshot,
        message is Snapshot ==> new.snapshot == message->Snapshot_0,
        action is Populate ==> action->Populate_0 == new.snapshot,
{
}

} // verus!

verus! {

/// The loader version picked is the first listed one without a '-': it
/// holds no '-'; it is the listed version that comes first among those
/// without a '-'; and it is empty when every listed version has a '-'.
pub proof fn lemma_pick_is_first_without_dash(w: Seq<Seq<char>>)
    ensures
        !first_stable(w).contains('-'),
        forall|j: int|
            0 <= j < w.len() && !(#[trigger] w[j]).contains('-') && (forall|k: int|
                0 <= k < j ==> w[k].contains('-')) ==> first_stable(w) == w[j],
        (forall|j: int| 0 <= j < w.len() ==> (#[trigger] w[j]).contains('-')) ==> first_stable(w)
            == Seq::<char>::empty(),
    decreases w.len(),
{
    if w.len() > 0 {
        let q = w.drop_first();
        lemma_pick_is_first_without_dash(q);
        assert forall|j: int|
            0 <= j < w.len() && !(#[trigger] w[j]).contains('-') && (forall|k: int|
                0 <= k < j ==> w[k].contains('-')) implies first_stable(w) == w[j] by {
            if j > 0 {
                assert(w[0].contains('-'));
                assert(q[j - 1] == w[j]);
                assert forall|k: int| 0 <= k < j - 1 implies q[k].contains('-') by {
                    assert(q[k] == w[k + 1]);
                }
            }
        }
        if forall|j: int| 0 <= j < w.len() ==> (#[trigger] w[j]).contains('-') {
            assert(w[0].contains('-'));
            assert forall|j: int| 0 <= j < q.len() implies (#[trigger] q[j]).contains('-') by {
                assert(q[j] == w[j + 1]);
            }
        }
    } else {
        assert(!Seq::<char>::empty().contains('-'));
    }
}

} // verus!
