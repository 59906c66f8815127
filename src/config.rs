//! The text icons of the explorer's buttons and entries.
use vstd::prelude::*;

verus! {

#[derive(Clone, Debug)]
pub struct NavigationIconConfig {
    pub back: String,
    pub next: String,
    pub up: String,
    pub reload: String,
}

#[derive(Clone, Debug)]
pub struct FsIconConfig {
    pub file: String,
    pub directory: String,
    pub symlink: String,
    pub unknown: String,
}

#[derive(Clone, Debug)]
pub struct IconConfig {
    pub navigation: NavigationIconConfig,
    pub fs: FsIconConfig,
}

pub fn icon_config() -> (r: IconConfig)
    ensures
        r.navigation.back@ == "[B]"@,
        r.navigation.next@ == "[N]"@,
        r.navigation.up@ == "[U]"@,
        r.navigation.reload@ == "[R]"@,
        r.fs.file@ == "[F]"@,
        r.fs.directory@ == "[D]"@,
        r.fs.symlink@ == "[S]"@,
        r.fs.unknown@ == "[?]"@,
{
    IconConfig {
        navigation: NavigationIconConfig {
            back: String::from_str("[B]"),
            next: String::from_str("[N]"),
            up: String::from_str("[U]"),
            reload: String::from_str("[R]"),
        },
        fs: FsIconConfig {
            file: String::from_str("[F]"),
            directory: String::from_str("[D]"),
            symlink: String::from_str("[S]"),
            unknown: String::from_str("[?]"),
        },
    }
}

} // verus!
