//! Where the game keeps its files, and where the installer puts its own:
//! the `.minecraft` folder under the user's home, and the paths of the
//! loader profile, the launcher profiles and the mods folder within it.
use crate::sync::strs;
use std::path::PathBuf;
use vstd::prelude::*;
use vstd::string::*;

verus! {

#[verifier::external_type_specification]
#[verifier::external_body]
pub struct ExPathBuf(PathBuf);

/// The operating systems the installer knows the game's folder on.
#[derive(Clone, Copy, Debug, PartialEq, Eq)]
pub enum Os {
    Windows,
    Linux,
    MacOs,
}

/// Why the game's folder could not be found.
#[derive(Clone, Copy, Debug, PartialEq, Eq)]
pub enum DirError {
    NoHome,
}

impl DirError {
    /// The message shown for the error.
    pub fn message(&self) -> (r: String)
        ensures
            r@ == "Couldn't find home directory!"@,
    {
        match self {
            DirError::NoHome => String::from_str("Couldn't find home directory!"),
        }
    }
}

/// The folders from the home directory down to the game's folder.
pub open spec fn minecraft_subdirs(os: Os) -> Seq<Seq<char>> {
    match os {
        Os::Windows => seq!["AppData"@, "Roaming"@, ".minecraft"@],
        Os::Linux => seq![".minecraft"@],
        Os::MacOs => seq!["Library"@, "Application Support"@, "minecraft"@],
    }
}

/// The folders from the home directory down to the game's folder.
pub fn subdirs(os: Os) -> (r: Vec<String>)
    ensures
        strs(r@) == minecraft_subdirs(os),
{
    let mut r: Vec<String> = Vec::new();
    match os {
        Os::Windows => {
            r.push(String::from_str("AppData"));
            r.push(String::from_str("Roaming"));
            r.push(String::from_str(".minecraft"));
        },
        Os::Linux => {
            r.push(String::from_str(".minecraft"));
        },
        Os::MacOs => {
            r.push(String::from_str("Library"));
            r.push(String::from_str("Application Support"));
            r.push(String::from_str("minecraft"));
        },
    }
    assert(strs(r@) =~= minecraft_subdirs(os));
    r
}

/// The game's folder: the home directory and the folders below it.
pub struct MinecraftDir {
    pub home: PathBuf,
    pub subdirs: Vec<String>,
}

/// Calls `home::home_dir`.
/// Nothing is claimed of the result: it comes from the environment
/// (`HOME`, `USERPROFILE`) or the system's user database.
#[verifier::external_body]
fn home_directory() -> Option<PathBuf> {
    home::home_dir()
}

/// The game's folder under a home directory, if there is one.
pub fn locate(os: Os, home: Option<PathBuf>) -> (r: Result<MinecraftDir, DirError>)
    ensures
        home is None ==> r == Err::<MinecraftDir, DirError>(DirError::NoHome),
        home is Some ==> r is Ok && r->Ok_0.home == home->0 && strs(r->Ok_0.subdirs@)
            == minecraft_subdirs(os),
{
    match home {
        Some(h) => Ok(MinecraftDir { home: h, subdirs: subdirs(os) }),
        None => Err(DirError::NoHome),
    }
}

/// The game's folder for the current user.
pub fn dir(os: Os) -> (r: Result<MinecraftDir, DirError>)
    ensures
        r is Ok ==> strs(r->Ok_0.subdirs@) == minecraft_subdirs(os),
        r is Err ==> r->Err_0 == DirError::NoHome,
{
    locate(os, home_directory())
}

/// The name of the loader's version folder, and of its files.
pub open spec fn version_folder_name_of(mc_version: Seq<char>, quilt_version: Seq<char>) -> Seq<
    char,
> {
    "quilt-loader-"@ + quilt_version + "-"@ + mc_version
}

/// The name of the loader's version folder, and of its files.
pub fn version_folder_name(mc_version: &String, quilt_version: &String) -> (r: String)
    ensures
        r@ == version_folder_name_of(mc_version@, quilt_version@),
{
    let mut r = String::from_str("quilt-loader-");
    r.append(quilt_version.as_str());
    r.append("-");
    r.append(mc_version.as_str());
    r
}

/// The paths that an installation writes, relative to the game's folder.
#[derive(Clone, Debug, PartialEq, Eq)]
pub struct InstallLayout {
    /// The folder that holds the mods for the game version.
    pub mods_dir: Vec<String>,
    /// The loader's version folder.
    pub version_dir: Vec<String>,
    /// The empty jar that the launcher asks for, in the version folder.
    pub version_jar: String,
    /// The loader's version profile, in the version folder.
    pub version_json: String,
    /// The launcher's profiles file, in the game's folder.
    pub launcher_profiles: String,
}

/// The paths that installing the loader `quilt_version` for the game
/// version `mc_version` writes.
pub fn install_layout(mc_version: &String, quilt_version: &String) -> (r: InstallLayout)
    ensures
        strs(r.mods_dir@) == seq![".velvet"@, "mods"@, mc_version@],
        strs(r.version_dir@) == seq!["versions"@, version_folder_name_of(
            mc_version@,
            quilt_version@,
        )],
        r.version_jar@ == version_folder_name_of(mc_version@, quilt_version@) + ".jar"@,
        r.version_json@ == version_folder_name_of(mc_version@, quilt_version@) + ".json"@,
        r.launcher_profiles@ == "launcher_profiles.json"@,
{
    let mut mods_dir: Vec<String> = Vec::new();
    mods_dir.push(String::from_str(".velvet"));
    mods_dir.push(String::from_str("mods"));
    mods_dir.push(mc_version.clone());
    assert(strs(mods_dir@) =~= seq![".velvet"@, "mods"@, mc_version@]);
    let folder = version_folder_name(mc_version, quilt_version);
    let mut version_dir: Vec<String> = Vec::new();
    version_dir.push(String::from_str("versions"));
    version_dir.push(folder.clone());
    assert(strs(version_dir@) =~= seq!["versions"@, folder@]);
    let mut version_jar = folder.clone();
    version_jar.append(".jar");
    let mut version_json = folder;
    version_json.append(".json");
    InstallLayout {
        mods_dir,
        version_dir,
        version_jar,
        version_json,
        launcher_profiles: String::from_str("launcher_profiles.json"),
    }
}

} // verus!
