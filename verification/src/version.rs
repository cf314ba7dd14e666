//! What the server says of itself when asked at its root.

use vstd::prelude::*;

verus! {

/// Who maintains the project.
#[derive(Debug, Clone, PartialEq, Eq)]
pub struct MaintainerData {
    pub email: String,
    pub website: String,
}

impl Default for MaintainerData {
    fn default() -> (r: Self)
        ensures
            r.email@ == "nebuladev@undefinedbhvr.com"@,
            r.website@ == "https://github.com/NebulaServices"@,
    {
        MaintainerData {
            email: "nebuladev@undefinedbhvr.com".to_owned(),
            website: "https://github.com/NebulaServices".to_owned(),
        }
    }
}

/// What the project is.
#[derive(Debug, Clone, PartialEq, Eq)]
pub struct ProjectData {
    pub name: String,
    pub description: String,
    pub email: String,
    pub website: String,
    pub repository: String,
    pub version: String,
}

impl Default for ProjectData {
    fn default() -> (r: Self)
        ensures
            r.name@ == "Nebula TOMPHTTP Server"@,
            r.description@ == "Clean implementation of the TOMPHttp Specification in Rust."@,
            r.email@ == ""@,
            r.website@ == "https://github.com/NebulaServices/bare-server-rust"@,
            r.repository@ == "https://github.com/NebulaServices/bare-server-rust"@,
            r.version@ == "1.0.0"@,
    {
        ProjectData {
            name: "Nebula TOMPHTTP Server".to_owned(),
            description: "Clean implementation of the TOMPHttp Specification in Rust.".to_owned(),
            email: "".to_owned(),
            website: "https://github.com/NebulaServices/bare-server-rust".to_owned(),
            repository: "https://github.com/NebulaServices/bare-server-rust".to_owned(),
            version: "1.0.0".to_owned(),
        }
    }
}

/// The document served at the root: the protocol versions that are spoken,
/// the language the server is written in, its maintainer and the project.
#[derive(Debug, Clone, PartialEq, Eq)]
pub struct VersionData {
    pub versions: Vec<String>,
    pub language: String,
    pub maintainer: MaintainerData,
    pub project: ProjectData,
}

impl Default for VersionData {
    fn default() -> (r: Self)
        ensures
            r.versions@.len() == 1,
            r.versions@[0]@ == "v2"@,
            r.language@ == "Rust"@,
            r.maintainer.email@ == "nebuladev@undefinedbhvr.com"@,
            r.maintainer.website@ == "https://github.com/NebulaServices"@,
            r.project.name@ == "Nebula TOMPHTTP Server"@,
            r.project.description@
                == "Clean implementation of the TOMPHttp Specification in Rust."@,
            r.project.email@ == ""@,
            r.project.website@ == "https://github.com/NebulaServices/bare-server-rust"@,
            r.project.repository@ == "https://github.com/NebulaServices/bare-server-rust"@,
            r.project.version@ == "1.0.0"@,
    {
        let mut versions: Vec<String> = Vec::new();
        versions.push("v2".to_owned());
        VersionData {
            versions,
            language: "Rust".to_owned(),
            maintainer: MaintainerData::default(),
            project: ProjectData::default(),
        }
    }
}

} // verus!
