//! The fixed table of registry hives: the provider-defined entry points a
//! caller may select as roots, with their identifiers and labels.

use vstd::prelude::*;

verus! {

/// Identifier of the classes hive.
pub const HKEY_CLASSES_ROOT: u64 = 0x80000000;

/// Identifier of the current-user hive.
pub const HKEY_CURRENT_USER: u64 = 0x80000001;

/// Identifier of the local-machine hive.
pub const HKEY_LOCAL_MACHINE: u64 = 0x80000002;

/// Identifier of the users hive.
pub const HKEY_USERS: u64 = 0x80000003;

/// Identifier of the performance-data hive.
pub const HKEY_PERFORMANCE_DATA: u64 = 0x80000004;

/// Identifier of the current-config hive.
pub const HKEY_CURRENT_CONFIG: u64 = 0x80000005;

/// Identifier of the dynamic-data hive.
pub const HKEY_DYN_DATA: u64 = 0x80000006;

/// Identifier of the current-user local-settings hive.
pub const HKEY_CURRENT_USER_LOCAL_SETTINGS: u64 = 0x80000007;

/// Identifier of the performance-text hive.
pub const HKEY_PERFORMANCE_TEXT: u64 = 0x80000050;

/// Identifier of the performance-nlstext hive.
pub const HKEY_PERFORMANCE_NLSTEXT: u64 = 0x80000060;

/// An error in what the caller asked for.
#[derive(Debug)]
pub enum CliError {
    InvalidBackend,
    UnknownHiveName,
}

/// One hive: its short label, its full name, and its identifier.
pub struct RegistryHiveInfo {
    pub short_name: String,
    pub name: String,
    pub hkey: u64,
}

impl RegistryHiveInfo {
    /// Packs a hive's label, name and identifier.
    pub fn new(short_name: String, name: String, hkey: u64) -> (r: RegistryHiveInfo)
        ensures
            r.short_name@ == short_name@,
            r.name@ == name@,
            r.hkey == hkey,
    {
        RegistryHiveInfo { short_name, name, hkey }
    }
}

/// The table's entry `i` has the given label, name and identifier.
pub open spec fn hive_entry(
    r: Seq<RegistryHiveInfo>,
    i: int,
    short_name: Seq<char>,
    name: Seq<char>,
    hkey: u64,
) -> bool {
    r[i].short_name@ == short_name && r[i].name@ == name && r[i].hkey == hkey
}

/// The fixed table of the ten known hives, in its presentation order.
pub fn get_hives() -> (r: Vec<RegistryHiveInfo>)
    ensures
        r@.len() == 10,
        hive_entry(r@, 0, "HKLM"@, "HKEY_LOCAL_MACHINE"@, HKEY_LOCAL_MACHINE),
        hive_entry(r@, 1, "HKCR"@, "HKEY_CLASSES_ROOT"@, HKEY_CLASSES_ROOT),
        hive_entry(r@, 2, "HKCC"@, "HKEY_CURRENT_CONFIG"@, HKEY_CURRENT_CONFIG),
        hive_entry(r@, 3, "HKCU"@, "HKEY_CURRENT_USER"@, HKEY_CURRENT_USER),
        hive_entry(
            r@,
            4,
            "HKCULL"@,
            "HKEY_CURRENT_USER_LOCAL_SETTINGS"@,
            HKEY_CURRENT_USER_LOCAL_SETTINGS,
        ),
        hive_entry(r@, 5, "HKDD"@, "HKEY_DYN_DATA"@, HKEY_DYN_DATA),
        hive_entry(r@, 6, "HKPD"@, "HKEY_PERFORMANCE_DATA"@, HKEY_PERFORMANCE_DATA),
        hive_entry(r@, 7, "HKPL"@, "HKEY_PERFORMANCE_NLSTEXT"@, HKEY_PERFORMANCE_NLSTEXT),
        hive_entry(r@, 8, "HKPT"@, "HKEY_PERFORMANCE_TEXT"@, HKEY_PERFORMANCE_TEXT),
        hive_entry(r@, 9, "HKU"@, "HKEY_USERS"@, HKEY_USERS),
{
    let mut r: Vec<RegistryHiveInfo> = Vec::new();
    r.push(RegistryHiveInfo::new(
        String::from_str("HKLM"),
        String::from_str("HKEY_LOCAL_MACHINE"),
        HKEY_LOCAL_MACHINE,
    ));
    r.push(RegistryHiveInfo::new(
        String::from_str("HKCR"),
        String::from_str("HKEY_CLASSES_ROOT"),
        HKEY_CLASSES_ROOT,
    ));
    r.push(RegistryHiveInfo::new(
        String::from_str("HKCC"),
        String::from_str("HKEY_CURRENT_CONFIG"),
        HKEY_CURRENT_CONFIG,
    ));
    r.push(RegistryHiveInfo::new(
        String::from_str("HKCU"),
        String::from_str("HKEY_CURRENT_USER"),
        HKEY_CURRENT_USER,
    ));
    r.push(RegistryHiveInfo::new(
        String::from_str("HKCULL"),
        String::from_str("HKEY_CURRENT_USER_LOCAL_SETTINGS"),
        HKEY_CURRENT_USER_LOCAL_SETTINGS,
    ));
    r.push(RegistryHiveInfo::new(
        String::from_str("HKDD"),
        String::from_str("HKEY_DYN_DATA"),
        HKEY_DYN_DATA,
    ));
    r.push(RegistryHiveInfo::new(
        String::from_str("HKPD"),
        String::from_str("HKEY_PERFORMANCE_DATA"),
        HKEY_PERFORMANCE_DATA,
    ));
    r.push(RegistryHiveInfo::new(
        String::from_str("HKPL"),
        String::from_str("HKEY_PERFORMANCE_NLSTEXT"),
        HKEY_PERFORMANCE_NLSTEXT,
    ));
    r.push(RegistryHiveInfo::new(
        String::from_str("HKPT"),
        String::from_str("HKEY_PERFORMANCE_TEXT"),
        HKEY_PERFORMANCE_TEXT,
    ));
    r.push(RegistryHiveInfo::new(
        String::from_str("HKU"),
        String::from_str("HKEY_USERS"),
        HKEY_USERS,
    ));
    r
}

/// The name matches the hive's short label or its full name.
pub open spec fn names_hive(name: Seq<char>, short_name: Seq<char>, full_name: Seq<char>) -> bool {
    name == short_name || name == full_name
}

/// Whether `name` names any of the ten known hives.
pub open spec fn names_some_hive(name: Seq<char>) -> bool {
    ||| names_hive(name, "HKLM"@, "HKEY_LOCAL_MACHINE"@)
    ||| names_hive(name, "HKCR"@, "HKEY_CLASSES_ROOT"@)
    ||| names_hive(name, "HKCC"@, "HKEY_CURRENT_CONFIG"@)
    ||| names_hive(name, "HKCU"@, "HKEY_CURRENT_USER"@)
    ||| names_hive(name, "HKCULL"@, "HKEY_CURRENT_USER_LOCAL_SETTINGS"@)
    ||| names_hive(name, "HKDD"@, "HKEY_DYN_DATA"@)
    ||| names_hive(name, "HKPD"@, "HKEY_PERFORMANCE_DATA"@)
    ||| names_hive(name, "HKPL"@, "HKEY_PERFORMANCE_NLSTEXT"@)
    ||| names_hive(name, "HKPT"@, "HKEY_PERFORMANCE_TEXT"@)
    ||| names_hive(name, "HKU"@, "HKEY_USERS"@)
}

/// Looks a hive up by its short label or full name; fails on any other
/// name.
pub fn get_hive(name: &String) -> (r: Result<u64, CliError>)
    ensures
        (r is Ok) <==> names_some_hive(name@),
        names_hive(name@, "HKLM"@, "HKEY_LOCAL_MACHINE"@) ==> r == Ok::<u64, CliError>(
            HKEY_LOCAL_MACHINE,
        ),
        names_hive(name@, "HKCR"@, "HKEY_CLASSES_ROOT"@) ==> r == Ok::<u64, CliError>(
            HKEY_CLASSES_ROOT,
        ),
        names_hive(name@, "HKCC"@, "HKEY_CURRENT_CONFIG"@) ==> r == Ok::<u64, CliError>(
            HKEY_CURRENT_CONFIG,
        ),
        names_hive(name@, "HKCU"@, "HKEY_CURRENT_USER"@) ==> r == Ok::<u64, CliError>(
            HKEY_CURRENT_USER,
        ),
        names_hive(name@, "HKCULL"@, "HKEY_CURRENT_USER_LOCAL_SETTINGS"@) ==> r == Ok::<
            u64,
            CliError,
        >(HKEY_CURRENT_USER_LOCAL_SETTINGS),
        names_hive(name@, "HKDD"@, "HKEY_DYN_DATA"@) ==> r == Ok::<u64, CliError>(HKEY_DYN_DATA),
        names_hive(name@, "HKPD"@, "HKEY_PERFORMANCE_DATA"@) ==> r == Ok::<u64, CliError>(
            HKEY_PERFORMANCE_DATA,
        ),
        names_hive(name@, "HKPL"@, "HKEY_PERFORMANCE_NLSTEXT"@) ==> r == Ok::<u64, CliError>(
            HKEY_PERFORMANCE_NLSTEXT,
        ),
        names_hive(name@, "HKPT"@, "HKEY_PERFORMANCE_TEXT"@) ==> r == Ok::<u64, CliError>(
            HKEY_PERFORMANCE_TEXT,
        ),
        names_hive(name@, "HKU"@, "HKEY_USERS"@) ==> r == Ok::<u64, CliError>(HKEY_USERS),
        !names_some_hive(name@) ==> r == Err::<u64, CliError>(CliError::UnknownHiveName),
{
    proof {
        reveal_strlit("HKLM");
        reveal_strlit("HKEY_LOCAL_MACHINE");
        reveal_strlit("HKCR");
        reveal_strlit("HKEY_CLASSES_ROOT");
        reveal_strlit("HKCC");
        reveal_strlit("HKEY_CURRENT_CONFIG");
        reveal_strlit("HKCU");
        reveal_strlit("HKEY_CURRENT_USER");
        reveal_strlit("HKCULL");
        reveal_strlit("HKEY_CURRENT_USER_LOCAL_SETTINGS");
        reveal_strlit("HKDD");
        reveal_strlit("HKEY_DYN_DATA");
        reveal_strlit("HKPD");
        reveal_strlit("HKEY_PERFORMANCE_DATA");
        reveal_strlit("HKPL");
        reveal_strlit("HKEY_PERFORMANCE_NLSTEXT");
        reveal_strlit("HKPT");
        reveal_strlit("HKEY_PERFORMANCE_TEXT");
        reveal_strlit("HKU");
        reveal_strlit("HKEY_USERS");
        assert(("HKLM"@).len() == 4);
        assert(("HKEY_LOCAL_MACHINE"@).len() == 18);
        assert(("HKCR"@).len() == 4);
        assert(("HKEY_CLASSES_ROOT"@).len() == 17);
        assert(("HKCC"@).len() == 4);
        assert(("HKEY_CURRENT_CONFIG"@).len() == 19);
        assert(("HKCU"@).len() == 4);
        assert(("HKEY_CURRENT_USER"@).len() == 17);
        assert(("HKCULL"@).len() == 6);
        assert(("HKEY_CURRENT_USER_LOCAL_SETTINGS"@).len() == 32);
        assert(("HKDD"@).len() == 4);
        assert(("HKEY_DYN_DATA"@).len() == 13);
        assert(("HKPD"@).len() == 4);
        assert(("HKEY_PERFORMANCE_DATA"@).len() == 21);
        assert(("HKPL"@).len() == 4);
        assert(("HKEY_PERFORMANCE_NLSTEXT"@).len() == 24);
        assert(("HKPT"@).len() == 4);
        assert(("HKEY_PERFORMANCE_TEXT"@).len() == 21);
        assert(("HKU"@).len() == 3);
        assert(("HKEY_USERS"@).len() == 10);
        assert(("HKLM"@)[2] != ("HKCR"@)[2]);
        assert("HKLM"@ != "HKCR"@);
        assert(("HKLM"@)[2] != ("HKCC"@)[2]);
        assert("HKLM"@ != "HKCC"@);
        assert(("HKLM"@)[2] != ("HKCU"@)[2]);
        assert("HKLM"@ != "HKCU"@);
        assert(("HKLM"@)[2] != ("HKDD"@)[2]);
        assert("HKLM"@ != "HKDD"@);
        assert(("HKLM"@)[2] != ("HKPD"@)[2]);
        assert("HKLM"@ != "HKPD"@);
        assert(("HKLM"@)[2] != ("HKPL"@)[2]);
        assert("HKLM"@ != "HKPL"@);
        assert(("HKLM"@)[2] != ("HKPT"@)[2]);
        assert("HKLM"@ != "HKPT"@);
        assert(("HKCR"@)[3] != ("HKCC"@)[3]);
        assert("HKCR"@ != "HKCC"@);
        assert(("HKCR"@)[3] != ("HKCU"@)[3]);
        assert("HKCR"@ != "HKCU"@);
        assert(("HKCR"@)[2] != ("HKDD"@)[2]);
        assert("HKCR"@ != "HKDD"@);
        assert(("HKCR"@)[2] != ("HKPD"@)[2]);
        assert("HKCR"@ != "HKPD"@);
        assert(("HKCR"@)[2] != ("HKPL"@)[2]);
        assert("HKCR"@ != "HKPL"@);
        assert(("HKCR"@)[2] != ("HKPT"@)[2]);
        assert("HKCR"@ != "HKPT"@);
        assert(("HKCC"@)[3] != ("HKCU"@)[3]);
        assert("HKCC"@ != "HKCU"@);
        assert(("HKCC"@)[2] != ("HKDD"@)[2]);
        assert("HKCC"@ != "HKDD"@);
        assert(("HKCC"@)[2] != ("HKPD"@)[2]);
        assert("HKCC"@ != "HKPD"@);
        assert(("HKCC"@)[2] != ("HKPL"@)[2]);
        assert("HKCC"@ != "HKPL"@);
        assert(("HKCC"@)[2] != ("HKPT"@)[2]);
        assert("HKCC"@ != "HKPT"@);
        assert(("HKCU"@)[2] != ("HKDD"@)[2]);
        assert("HKCU"@ != "HKDD"@);
        assert(("HKCU"@)[2] != ("HKPD"@)[2]);
        assert("HKCU"@ != "HKPD"@);
        assert(("HKCU"@)[2] != ("HKPL"@)[2]);
        assert("HKCU"@ != "HKPL"@);
        assert(("HKCU"@)[2] != ("HKPT"@)[2]);
        assert("HKCU"@ != "HKPT"@);
        assert(("HKDD"@)[2] != ("HKPD"@)[2]);
        assert("HKDD"@ != "HKPD"@);
        assert(("HKDD"@)[2] != ("HKPL"@)[2]);
        assert("HKDD"@ != "HKPL"@);
        assert(("HKDD"@)[2] != ("HKPT"@)[2]);
        assert("HKDD"@ != "HKPT"@);
        assert(("HKPD"@)[3] != ("HKPL"@)[3]);
        assert("HKPD"@ != "HKPL"@);
        assert(("HKPD"@)[3] != ("HKPT"@)[3]);
        assert("HKPD"@ != "HKPT"@);
        assert(("HKPL"@)[3] != ("HKPT"@)[3]);
        assert("HKPL"@ != "HKPT"@);
        assert(("HKEY_CLASSES_ROOT"@)[6] != ("HKEY_CURRENT_USER"@)[6]);
        assert("HKEY_CLASSES_ROOT"@ != "HKEY_CURRENT_USER"@);
        assert(("HKEY_PERFORMANCE_DATA"@)[17] != ("HKEY_PERFORMANCE_TEXT"@)[17]);
        assert("HKEY_PERFORMANCE_DATA"@ != "HKEY_PERFORMANCE_TEXT"@);
    }
    if hive_named(name, "HKLM", "HKEY_LOCAL_MACHINE") {
        Ok(HKEY_LOCAL_MACHINE)
    } else if hive_named(name, "HKCR", "HKEY_CLASSES_ROOT") {
        Ok(HKEY_CLASSES_ROOT)
    } else if hive_named(name, "HKCC", "HKEY_CURRENT_CONFIG") {
        Ok(HKEY_CURRENT_CONFIG)
    } else if hive_named(name, "HKCU", "HKEY_CURRENT_USER") {
        Ok(HKEY_CURRENT_USER)
    } else if hive_named(name, "HKCULL", "HKEY_CURRENT_USER_LOCAL_SETTINGS") {
        Ok(HKEY_CURRENT_USER_LOCAL_SETTINGS)
    } else if hive_named(name, "HKDD", "HKEY_DYN_DATA") {
        Ok(HKEY_DYN_DATA)
    } else if hive_named(name, "HKPD", "HKEY_PERFORMANCE_DATA") {
        Ok(HKEY_PERFORMANCE_DATA)
    } else if hive_named(name, "HKPL", "HKEY_PERFORMANCE_NLSTEXT") {
        Ok(HKEY_PERFORMANCE_NLSTEXT)
    } else if hive_named(name, "HKPT", "HKEY_PERFORMANCE_TEXT") {
        Ok(HKEY_PERFORMANCE_TEXT)
    } else if hive_named(name, "HKU", "HKEY_USERS") {
        Ok(HKEY_USERS)
    } else {
        Err(CliError::UnknownHiveName)
    }
}

/// Whether the name equals the given short label or full name.
fn hive_named(name: &String, short_name: &str, full_name: &str) -> (r: bool)
    ensures
        r == names_hive(name@, short_name@, full_name@),
{
    let s = String::from_str(short_name);
    let f = String::from_str(full_name);
    *name == s || *name == f
}

/// The short label of the hive with the given identifier, `"(unknown)"` for
/// any other value: the root path under which a traversal of that hive
/// reports every node.
pub fn hive_label(hive: u64) -> (r: String)
    ensures
        hive == HKEY_CLASSES_ROOT ==> r@ == "HKCR"@,
        hive == HKEY_CURRENT_CONFIG ==> r@ == "HKCC"@,
        hive == HKEY_CURRENT_USER ==> r@ == "HKCU"@,
        hive == HKEY_CURRENT_USER_LOCAL_SETTINGS ==> r@ == "HKCULL"@,
        hive == HKEY_DYN_DATA ==> r@ == "HKDD"@,
        hive == HKEY_LOCAL_MACHINE ==> r@ == "HKLM"@,
        hive == HKEY_PERFORMANCE_DATA ==> r@ == "HKPD"@,
        hive == HKEY_PERFORMANCE_NLSTEXT ==> r@ == "HKPL"@,
        hive == HKEY_PERFORMANCE_TEXT ==> r@ == "HKPT"@,
        hive == HKEY_USERS ==> r@ == "HKU"@,
        hive != HKEY_CLASSES_ROOT && hive != HKEY_CURRENT_CONFIG && hive != HKEY_CURRENT_USER
            && hive != HKEY_CURRENT_USER_LOCAL_SETTINGS && hive != HKEY_DYN_DATA && hive
            != HKEY_LOCAL_MACHINE && hive != HKEY_PERFORMANCE_DATA && hive
            != HKEY_PERFORMANCE_NLSTEXT && hive != HKEY_PERFORMANCE_TEXT && hive != HKEY_USERS
            ==> r@ == "(unknown)"@,
{
    if hive == HKEY_CLASSES_ROOT {
        String::from_str("HKCR")
    } else if hive == HKEY_CURRENT_CONFIG {
        String::from_str("HKCC")
    } else if hive == HKEY_CURRENT_USER {
        String::from_str("HKCU")
    } else if hive == HKEY_CURRENT_USER_LOCAL_SETTINGS {
        String::from_str("HKCULL")
    } else if hive == HKEY_DYN_DATA {
        String::from_str("HKDD")
    } else if hive == HKEY_LOCAL_MACHINE {
        String::from_str("HKLM")
    } else if hive == HKEY_PERFORMANCE_DATA {
        String::from_str("HKPD")
    } else if hive == HKEY_PERFORMANCE_NLSTEXT {
        String::from_str("HKPL")
    } else if hive == HKEY_PERFORMANCE_TEXT {
        String::from_str("HKPT")
    } else if hive == HKEY_USERS {
        String::from_str("HKU")
    } else {
        String::from_str("(unknown)")
    }
}

} // verus!
