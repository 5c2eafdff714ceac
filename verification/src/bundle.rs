//! The input method's identity, read from the main bundle's `Info.plist`.

use vstd::prelude::*;

use crate::text::push_str;

verus! {

/// Must agree with `CFBundleIdentifier` in `Info.plist`.
pub const DEFAULT_IDENTIFIER: &'static str = "app.manbo.inputmethod";

/// What the shell reports about itself.
#[derive(Debug, Clone, PartialEq, Eq)]
pub struct BundleInfo {
    /// `InputMethodConnectionName`, the name IMK registers its connection under.
    pub connection_name: String,
    /// `CFBundleIdentifier`.
    pub identifier: String,
    /// `CFBundleShortVersionString`, shown in the menu.
    pub version: String,
    /// Build label: the packaging script's commit and date, or "本地构建" for a local build.
    pub build: String,
}

impl BundleInfo {
    /// Puts the bundle's values together, falling back where the bundle gives nothing: the
    /// default identifier, `<identifier>_Connection`, the package version and "本地构建".
    pub fn from_values(
        identifier: Option<String>,
        connection_name: Option<String>,
        version: Option<String>,
        build: Option<String>,
        package_version: &str,
    ) -> (info: Self)
        ensures
            info.identifier@ == match identifier {
                Some(i) => i@,
                None => DEFAULT_IDENTIFIER@,
            },
            info.connection_name@ == match connection_name {
                Some(c) => c@,
                None => info.identifier@ + "_Connection"@,
            },
            info.version@ == match version {
                Some(v) => v@,
                None => package_version@,
            },
            info.build@ == match build {
                Some(b) => b@,
                None => "本地构建"@,
            },
    {
        let identifier = match identifier {
            Some(i) => i,
            None => String::from_str(DEFAULT_IDENTIFIER),
        };
        let connection_name = match connection_name {
            Some(c) => c,
            None => {
                let mut c = identifier.clone();
                push_str(&mut c, "_Connection");
                c
            },
        };
        let version = match version {
            Some(v) => v,
            None => String::from_str(package_version),
        };
        let build = match build {
            Some(b) => b,
            None => String::from_str("本地构建"),
        };
        BundleInfo { connection_name, identifier, version, build }
    }
}

} // verus!
