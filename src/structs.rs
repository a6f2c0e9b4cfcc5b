//! The engine's vocabulary: categories, ownership classes, reconciliation
//! settings and the closed set of privileged filesystem operations.
use vstd::prelude::*;
use vstd::string::*;
use crate::tools::{lower_of, text_eq, to_lower};

verus! {

/// A category of declared entities (with its security tier).
#[allow(non_camel_case_types)]
#[derive(Debug, Clone, Copy, PartialEq, Eq, Structural)]
pub enum Title {
    Config,
    Special_Config,
    Secure_Config,
    Secure_Special_Config,
    System,
    Special_System,
    Secure_System,
    Secure_Special_System,
    Backup,
    Secure_Backup,
    Unset,
}

/// The name of a category as it is printed and stored.
pub open spec fn title_text(t: Title) -> Seq<char> {
    match t {
        Title::Config => "Config"@,
        Title::Special_Config => "Special_Config"@,
        Title::Secure_Config => "Secure_Config"@,
        Title::Secure_Special_Config => "Secure_Special_Config"@,
        Title::System => "System"@,
        Title::Special_System => "Special_System"@,
        Title::Secure_System => "Secure_System"@,
        Title::Secure_Special_System => "Secure_Special_System"@,
        Title::Backup => "Backup"@,
        Title::Secure_Backup => "Secure_Backup"@,
        Title::Unset => "None"@,
    }
}

/// The category that a lower-case name selects, if any.
pub open spec fn title_named(s: Seq<char>) -> Option<Title> {
    if s == "config"@ { Some(Title::Config) }
    else if s == "special_config"@ { Some(Title::Special_Config) }
    else if s == "secure_config"@ { Some(Title::Secure_Config) }
    else if s == "secure_special_config"@ { Some(Title::Secure_Special_Config) }
    else if s == "system"@ { Some(Title::System) }
    else if s == "special_system"@ { Some(Title::Special_System) }
    else if s == "secure_system"@ { Some(Title::Secure_System) }
    else if s == "secure_special_system"@ { Some(Title::Secure_Special_System) }
    else if s == "backup"@ { Some(Title::Backup) }
    else if s == "secure_backup"@ { Some(Title::Secure_Backup) }
    else { None }
}

/// Every real category, in processing order.
pub open spec fn all_titles() -> Seq<Title> {
    seq![
        Title::Config, Title::Special_Config, Title::Secure_Config,
        Title::Secure_Special_Config, Title::System, Title::Special_System,
        Title::Secure_System, Title::Secure_Special_System, Title::Backup,
        Title::Secure_Backup,
    ]
}

impl Title {
    /// Every real category, in the order a full run processes them.
    pub fn into_iter() -> (r: Vec<Title>)
        ensures
            r@ == all_titles(),
    {
        let r = vec![
            Title::Config, Title::Special_Config, Title::Secure_Config,
            Title::Secure_Special_Config, Title::System, Title::Special_System,
            Title::Secure_System, Title::Secure_Special_System, Title::Backup,
            Title::Secure_Backup,
        ];
        assert(r@ =~= all_titles());
        r
    }

    /// The category's printed name.
    pub fn name(&self) -> (r: String)
        ensures
            r@ == title_text(*self),
    {
        match self {
            Title::Config => String::from_str("Config"),
            Title::Special_Config => String::from_str("Special_Config"),
            Title::Secure_Config => String::from_str("Secure_Config"),
            Title::Secure_Special_Config => String::from_str("Secure_Special_Config"),
            Title::System => String::from_str("System"),
            Title::Special_System => String::from_str("Special_System"),
            Title::Secure_System => String::from_str("Secure_System"),
            Title::Secure_Special_System => String::from_str("Secure_Special_System"),
            Title::Backup => String::from_str("Backup"),
            Title::Secure_Backup => String::from_str("Secure_Backup"),
            Title::Unset => String::from_str("None"),
        }
    }

    /// The category named by an already lower-cased string.
    pub fn from_lowered(s: &str) -> (r: Option<Title>)
        ensures
            r == title_named(s@),
    {
        if text_eq(s, "config") { Some(Title::Config) }
        else if text_eq(s, "special_config") { Some(Title::Special_Config) }
        else if text_eq(s, "secure_config") { Some(Title::Secure_Config) }
        else if text_eq(s, "secure_special_config") { Some(Title::Secure_Special_Config) }
        else if text_eq(s, "system") { Some(Title::System) }
        else if text_eq(s, "special_system") { Some(Title::Special_System) }
        else if text_eq(s, "secure_system") { Some(Title::Secure_System) }
        else if text_eq(s, "secure_special_system") { Some(Title::Secure_Special_System) }
        else if text_eq(s, "backup") { Some(Title::Backup) }
        else if text_eq(s, "secure_backup") { Some(Title::Secure_Backup) }
        else { None }
    }

    /// Parses a category name, ignoring case.
    pub fn from_str(s: &str) -> (r: Result<Title, String>)
        ensures
            r is Ok <==> title_named(lower_of(s@)) is Some,
            r is Ok ==> Some(r->Ok_0) == title_named(lower_of(s@)),
    {
        let lowered = to_lower(s);
        match Title::from_lowered(lowered.as_str()) {
            Some(t) => Ok(t),
            None => Err(String::from_str("Invalid")),
        }
    }
}

/// An ownership class: decides path prefixes and hardlink eligibility.
#[derive(Debug, Clone, Copy, PartialEq, Eq, Structural)]
pub enum Ownership {
    Home,
    Root,
    Other,
    Generic,
    Default,
    Unset,
}

pub open spec fn set_text(s: Ownership) -> Seq<char> {
    match s {
        Ownership::Home => "Home"@,
        Ownership::Root => "Root"@,
        Ownership::Other => "Other"@,
        Ownership::Generic => "Generic"@,
        Ownership::Default => "Default"@,
        Ownership::Unset => "None"@,
    }
}

/// The ownership class that a lower-case name selects, if any.
pub open spec fn set_named(s: Seq<char>) -> Option<Ownership> {
    if s == "home"@ { Some(Ownership::Home) }
    else if s == "root"@ { Some(Ownership::Root) }
    else if s == "other"@ { Some(Ownership::Other) }
    else if s == "default"@ { Some(Ownership::Default) }
    else if s == "generic"@ { Some(Ownership::Generic) }
    else { None }
}

impl Ownership {
    /// Parses an ownership class name, ignoring case; an unknown name is refused.
    pub fn new(set: &str) -> (r: Option<Ownership>)
        ensures
            r == set_named(lower_of(set@)),
    {
        let lowered = to_lower(set);
        Ownership::from_lowered(lowered.as_str())
    }

    /// The ownership class named by an already lower-cased string.
    pub fn from_lowered(s: &str) -> (r: Option<Ownership>)
        ensures
            r == set_named(s@),
    {
        if text_eq(s, "home") { Some(Ownership::Home) }
        else if text_eq(s, "root") { Some(Ownership::Root) }
        else if text_eq(s, "other") { Some(Ownership::Other) }
        else if text_eq(s, "default") { Some(Ownership::Default) }
        else if text_eq(s, "generic") { Some(Ownership::Generic) }
        else { None }
    }

    /// The class's printed name.
    pub fn name(&self) -> (r: String)
        ensures
            r@ == set_text(*self),
    {
        match self {
            Ownership::Home => String::from_str("Home"),
            Ownership::Root => String::from_str("Root"),
            Ownership::Other => String::from_str("Other"),
            Ownership::Generic => String::from_str("Generic"),
            Ownership::Default => String::from_str("Default"),
            Ownership::Unset => String::from_str("None"),
        }
    }
}

/// Which reconciliation algorithm an entity goes through.
#[allow(non_camel_case_types)]
#[derive(Debug, Clone, Copy, PartialEq, Eq, Structural)]
pub enum Setting {
    Link,
    Recursive,
    Copy,
    Secure_Link,
    Secure_Recursive,
    Unset,
}

pub open spec fn setting_text(s: Setting) -> Seq<char> {
    match s {
        Setting::Link => "Link"@,
        Setting::Recursive => "Recursive"@,
        Setting::Copy => "Copy"@,
        Setting::Secure_Link => "Secure_Link"@,
        Setting::Secure_Recursive => "Secure_Recursive"@,
        Setting::Unset => "None"@,
    }
}

/// The settings that a configuration directory section can hold.
pub open spec fn config_settings() -> Seq<Setting> {
    seq![Setting::Link, Setting::Recursive, Setting::Secure_Link, Setting::Secure_Recursive]
}

/// The setting that a system section name selects, if any.
pub open spec fn setting_named(s: Seq<char>) -> Option<Setting> {
    if s == "link"@ { Some(Setting::Link) }
    else if s == "recursive"@ { Some(Setting::Recursive) }
    else if s == "copy"@ { Some(Setting::Copy) }
    else { None }
}

/// A section name under the system table that names no setting.
#[derive(Debug, Clone, PartialEq, Eq)]
pub enum ConfigError {
    WrongSetting(String),
}

impl Setting {
    /// The setting that a section name selects; any other name is an error
    /// that carries the name.
    pub fn new(setting: &str) -> (r: Result<Setting, ConfigError>)
        ensures
            setting_named(setting@) is Some <==> r is Ok,
            r is Ok ==> Some(r->Ok_0) == setting_named(setting@),
            r matches Err(ConfigError::WrongSetting(name)) ==> name@ == setting@,
    {
        if text_eq(setting, "link") { Ok(Setting::Link) }
        else if text_eq(setting, "recursive") { Ok(Setting::Recursive) }
        else if text_eq(setting, "copy") { Ok(Setting::Copy) }
        else { Err(ConfigError::WrongSetting(String::from_str(setting))) }
    }

    /// The setting whose printed name is `s`, as the store keeps it.
    pub fn from_name(s: &str) -> (r: Option<Setting>)
        ensures
            r matches Some(t) ==> setting_text(t) == s@,
            r is None ==> forall|t: Setting| setting_text(t) != s@,
    {
        if text_eq(s, "Link") { Some(Setting::Link) }
        else if text_eq(s, "Recursive") { Some(Setting::Recursive) }
        else if text_eq(s, "Copy") { Some(Setting::Copy) }
        else if text_eq(s, "Secure_Link") { Some(Setting::Secure_Link) }
        else if text_eq(s, "Secure_Recursive") { Some(Setting::Secure_Recursive) }
        else if text_eq(s, "None") { Some(Setting::Unset) }
        else { None }
    }

    /// The settings of a configuration directory, in processing order.
    pub fn into_iter() -> (r: Vec<Setting>)
        ensures
            r@ == config_settings(),
    {
        let r = vec![Setting::Link, Setting::Recursive, Setting::Secure_Link, Setting::Secure_Recursive];
        assert(r@ =~= config_settings());
        r
    }

    /// The setting's printed name.
    pub fn name(&self) -> (r: String)
        ensures
            r@ == setting_text(*self),
    {
        match self {
            Setting::Link => String::from_str("Link"),
            Setting::Recursive => String::from_str("Recursive"),
            Setting::Copy => String::from_str("Copy"),
            Setting::Secure_Link => String::from_str("Secure_Link"),
            Setting::Secure_Recursive => String::from_str("Secure_Recursive"),
            Setting::Unset => String::from_str("None"),
        }
    }

    /// Plain and secured links share the link algorithm.
    pub open spec fn spec_is_link(self) -> bool {
        self == Setting::Link || self == Setting::Secure_Link
    }

    pub fn is_link(&self) -> (r: bool)
        ensures
            r == self.spec_is_link(),
    {
        match self {
            Setting::Link | Setting::Secure_Link => true,
            _ => false,
        }
    }
}

/// The closed set of filesystem primitives that may need elevated rights.
#[allow(non_camel_case_types)]
#[derive(Debug, Clone, Copy, PartialEq, Eq, Structural)]
pub enum Ops {
    Copy,
    Symlink,
    Create_Dir,
    Create_Dir_All,
    Hardlink,
    Rm_File,
    Rm_Dir,
}

/// The operation's name on the helper's command line.
pub open spec fn ops_text(op: Ops) -> Seq<char> {
    match op {
        Ops::Copy => "Copy"@,
        Ops::Symlink => "Symlink"@,
        Ops::Create_Dir => "Create_Dir"@,
        Ops::Create_Dir_All => "Create_Dir_All"@,
        Ops::Hardlink => "Hardlink"@,
        Ops::Rm_File => "Rm_File"@,
        Ops::Rm_Dir => "Rm_Dir"@,
    }
}

/// The operation that a helper command-line name selects, if any.
pub open spec fn ops_named(s: Seq<char>) -> Option<Ops> {
    if s == "Copy"@ { Some(Ops::Copy) }
    else if s == "Symlink"@ { Some(Ops::Symlink) }
    else if s == "Create_Dir"@ { Some(Ops::Create_Dir) }
    else if s == "Create_Dir_All"@ { Some(Ops::Create_Dir_All) }
    else if s == "Hardlink"@ { Some(Ops::Hardlink) }
    else if s == "Rm_Dir"@ { Some(Ops::Rm_Dir) }
    else if s == "Rm_File"@ { Some(Ops::Rm_File) }
    else { None }
}

/// How many path arguments each operation takes.
pub open spec fn ops_arity(op: Ops) -> nat {
    match op {
        Ops::Copy | Ops::Symlink | Ops::Hardlink => 2,
        _ => 1,
    }
}

impl Ops {
    /// Parses an operation name exactly as the helper receives it.
    pub fn from_str(s: &str) -> (r: Result<Ops, ()>)
        ensures
            r is Ok <==> ops_named(s@) is Some,
            r is Ok ==> Some(r->Ok_0) == ops_named(s@),
    {
        if text_eq(s, "Copy") { Ok(Ops::Copy) }
        else if text_eq(s, "Symlink") { Ok(Ops::Symlink) }
        else if text_eq(s, "Create_Dir") { Ok(Ops::Create_Dir) }
        else if text_eq(s, "Create_Dir_All") { Ok(Ops::Create_Dir_All) }
        else if text_eq(s, "Hardlink") { Ok(Ops::Hardlink) }
        else if text_eq(s, "Rm_Dir") { Ok(Ops::Rm_Dir) }
        else if text_eq(s, "Rm_File") { Ok(Ops::Rm_File) }
        else { Err(()) }
    }

    /// The operation's name on the helper's command line.
    pub fn name(&self) -> (r: String)
        ensures
            r@ == ops_text(*self),
    {
        match self {
            Ops::Copy => String::from_str("Copy"),
            Ops::Symlink => String::from_str("Symlink"),
            Ops::Create_Dir => String::from_str("Create_Dir"),
            Ops::Create_Dir_All => String::from_str("Create_Dir_All"),
            Ops::Hardlink => String::from_str("Hardlink"),
            Ops::Rm_File => String::from_str("Rm_File"),
            Ops::Rm_Dir => String::from_str("Rm_Dir"),
        }
    }

    /// How many path arguments the operation takes.
    pub fn arity(&self) -> (r: usize)
        ensures
            r == ops_arity(*self),
    {
        match self {
            Ops::Copy | Ops::Symlink | Ops::Hardlink => 2,
            _ => 1,
        }
    }
}

} // verus!
