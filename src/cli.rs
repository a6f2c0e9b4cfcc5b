//! Command-line options: which parts of a run to do, on which categories or
//! managers, and where the configuration lives.
use vstd::prelude::*;
use vstd::string::*;
use crate::reconcile::OutputLog;
use crate::tools::{lower_of, text_eq, to_lower};

verus! {

/// Which list the next plain argument belongs to.
#[derive(Debug, Clone, Copy, PartialEq, Eq, Structural)]
pub enum Mode {
    Link,
    Install,
    Config,
    Service,
    Unset,
}

/// Whether removals may proceed without asking.
#[derive(Debug, Clone, Copy, PartialEq, Eq, Structural)]
pub enum Force {
    Confirm,
    NoConfirm,
    Unset,
}

/// A refused command line.
#[derive(Debug, Clone, PartialEq, Eq)]
pub enum OptionError {
    InvalidOption(String),
    NoConfigPath,
    InvalidConfigPath(String),
}

/// The recognised options.
#[derive(Debug, Clone, Copy, PartialEq, Eq, Structural)]
pub enum Flag {
    Help,
    Config,
    Service,
    Link,
    Install,
    Force,
    ForceNoConfirm,
}

pub open spec fn flag_named(s: Seq<char>) -> Option<Flag> {
    if s == "-h"@ || s == "--help"@ { Some(Flag::Help) }
    else if s == "-c"@ || s == "--config"@ { Some(Flag::Config) }
    else if s == "-s"@ || s == "--service"@ { Some(Flag::Service) }
    else if s == "-l"@ || s == "--link"@ { Some(Flag::Link) }
    else if s == "-i"@ || s == "--install"@ { Some(Flag::Install) }
    else if s == "-f"@ || s == "--force"@ { Some(Flag::Force) }
    else if s == "-fc"@ || s == "--force-noconfirm"@ { Some(Flag::ForceNoConfirm) }
    else { None }
}

/// What the parsed options say, as plain values.
pub struct ConnectView {
    pub help: bool,
    pub config_flag: bool,
    pub config_path: Option<Seq<char>>,
    pub link_flag: bool,
    pub links: Seq<Seq<char>>,
    pub install_flag: bool,
    pub installs: Seq<Seq<char>>,
    pub service_flag: bool,
    pub services: Seq<Seq<char>>,
    pub force: Force,
    pub mode: Mode,
}

pub open spec fn texts(v: Seq<String>) -> Seq<Seq<char>> {
    Seq::new(v.len(), |i: int| v[i]@)
}

pub open spec fn ends_with_toml(s: Seq<char>) -> bool {
    s.len() >= 5 && s.subrange(s.len() - 5, s.len() as int) == ".toml"@
}

/// One argument's effect: a flag switches mode or sets an option; any other
/// argument belongs to the current mode's list (lower-cased), or is the
/// configuration path, which must end in `.toml`.
pub open spec fn step(v: ConnectView, arg: Seq<char>) -> Option<ConnectView> {
    if arg.len() > 0 && arg[0] == '-' {
        match flag_named(arg) {
            None => None,
            Some(Flag::Help) => Some(ConnectView { help: true, ..v }),
            Some(Flag::Config) => Some(ConnectView { config_flag: true, mode: Mode::Config, ..v }),
            Some(Flag::Service) => Some(ConnectView { service_flag: true, mode: Mode::Service, ..v }),
            Some(Flag::Link) => Some(ConnectView { link_flag: true, mode: Mode::Link, ..v }),
            Some(Flag::Install) => Some(ConnectView { install_flag: true, mode: Mode::Install, ..v }),
            Some(Flag::Force) => Some(ConnectView { force: Force::Confirm, ..v }),
            Some(Flag::ForceNoConfirm) => Some(
                ConnectView { force: if v.force == Force::Unset { Force::NoConfirm } else { v.force }, ..v },
            ),
        }
    } else {
        match v.mode {
            Mode::Config => if ends_with_toml(arg) { Some(ConnectView { config_path: Some(arg), ..v }) } else { None },
            Mode::Link => Some(ConnectView { links: v.links.push(lower_of(arg)), ..v }),
            Mode::Install => Some(ConnectView { installs: v.installs.push(lower_of(arg)), ..v }),
            Mode::Service => Some(ConnectView { services: v.services.push(lower_of(arg)), ..v }),
            Mode::Unset => None,
        }
    }
}

/// The parsed command line.
pub struct Connect {
    pub help: bool,
    pub config_file: (bool, Option<String>),
    /// The configuration file to read.
    pub conf: String,
    pub link: (bool, Vec<String>),
    pub install: (bool, Vec<String>),
    pub service: (bool, Vec<String>),
    pub force: Force,
    pub mode: Mode,
    pub vec: OutputLog,
}

impl Connect {
    pub open spec fn view(&self) -> ConnectView {
        ConnectView {
            help: self.help,
            config_flag: self.config_file.0,
            config_path: match self.config_file.1 { Some(p) => Some(p@), None => None },
            link_flag: self.link.0,
            links: texts(self.link.1@),
            install_flag: self.install.0,
            installs: texts(self.install.1@),
            service_flag: self.service.0,
            services: texts(self.service.1@),
            force: self.force,
            mode: self.mode,
        }
    }

    /// No option given: everything is to be done with the default
    /// configuration file.
    pub fn new() -> (r: Connect)
        ensures
            r@ == (ConnectView {
                help: false,
                config_flag: false,
                config_path: None,
                link_flag: false,
                links: Seq::empty(),
                install_flag: false,
                installs: Seq::empty(),
                service_flag: false,
                services: Seq::empty(),
                force: Force::Unset,
                mode: Mode::Unset,
            }),
            r.conf@ == "/etc/declarch/declarch.toml"@,
            r.vec.lines@.len() == 0,
    {
        let r = Connect {
            help: false,
            config_file: (false, None),
            conf: String::from_str("/etc/declarch/declarch.toml"),
            link: (false, Vec::new()),
            install: (false, Vec::new()),
            service: (false, Vec::new()),
            force: Force::Unset,
            mode: Mode::Unset,
            vec: OutputLog::new(),
        };
        assert(texts(r.link.1@) =~= Seq::<Seq<char>>::empty());
        assert(texts(r.install.1@) =~= Seq::<Seq<char>>::empty());
        assert(texts(r.service.1@) =~= Seq::<Seq<char>>::empty());
        r
    }

    fn flag(arg: &str) -> (r: Option<Flag>)
        ensures
            r == flag_named(arg@),
    {
        if text_eq(arg, "-h") || text_eq(arg, "--help") { Some(Flag::Help) }
        else if text_eq(arg, "-c") || text_eq(arg, "--config") { Some(Flag::Config) }
        else if text_eq(arg, "-s") || text_eq(arg, "--service") { Some(Flag::Service) }
        else if text_eq(arg, "-l") || text_eq(arg, "--link") { Some(Flag::Link) }
        else if text_eq(arg, "-i") || text_eq(arg, "--install") { Some(Flag::Install) }
        else if text_eq(arg, "-f") || text_eq(arg, "--force") { Some(Flag::Force) }
        else if text_eq(arg, "-fc") || text_eq(arg, "--force-noconfirm") { Some(Flag::ForceNoConfirm) }
        else { None }
    }

    fn is_toml(arg: &str) -> (r: bool)
        ensures
            r == ends_with_toml(arg@),
    {
        let n = arg.unicode_len();
        if n < 5 {
            return false;
        }
        text_eq(arg.substring_char(n - 5, n), ".toml")
    }

    /// Takes one command-line argument.
    pub fn parse_arg(&mut self, arg: &str) -> (r: Result<(), OptionError>)
        ensures
            r is Ok <==> step(old(self)@, arg@) is Some,
            r is Ok ==> final(self)@ == step(old(self)@, arg@)->Some_0,
            r is Ok ==> final(self).conf == old(self).conf,
            r matches Err(OptionError::InvalidOption(a)) ==> a@ == arg@,
            r matches Err(OptionError::InvalidConfigPath(a)) ==> a@ == arg@,
            !(r matches Err(OptionError::NoConfigPath)),
    {
        let starts_dash = arg.unicode_len() > 0 && arg.get_char(0) == '-';
        if starts_dash {
            match Self::flag(arg) {
                None => Err(OptionError::InvalidOption(String::from_str(arg))),
                Some(Flag::Help) => { self.help = true; Ok(()) },
                Some(Flag::Config) => { self.config_file.0 = true; self.mode = Mode::Config; Ok(()) },
                Some(Flag::Service) => { self.service.0 = true; self.mode = Mode::Service; Ok(()) },
                Some(Flag::Link) => { self.link.0 = true; self.mode = Mode::Link; Ok(()) },
                Some(Flag::Install) => { self.install.0 = true; self.mode = Mode::Install; Ok(()) },
                Some(Flag::Force) => { self.force = Force::Confirm; Ok(()) },
                Some(Flag::ForceNoConfirm) => {
                    if self.force == Force::Unset {
                        self.force = Force::NoConfirm;
                    }
                    Ok(())
                },
            }
        } else {
            match self.mode {
                Mode::Config => {
                    if Self::is_toml(arg) {
                        self.config_file.1 = Some(String::from_str(arg));
                        Ok(())
                    } else {
                        Err(OptionError::InvalidConfigPath(String::from_str(arg)))
                    }
                },
                Mode::Link => {
                    self.link.1.push(to_lower(arg));
                    assert(texts(self.link.1@) =~= texts(old(self).link.1@).push(lower_of(arg@)));
                    Ok(())
                },
                Mode::Install => {
                    self.install.1.push(to_lower(arg));
                    assert(texts(self.install.1@) =~= texts(old(self).install.1@).push(lower_of(arg@)));
                    Ok(())
                },
                Mode::Service => {
                    self.service.1.push(to_lower(arg));
                    assert(texts(self.service.1@) =~= texts(old(self).service.1@).push(lower_of(arg@)));
                    Ok(())
                },
                Mode::Unset => Err(OptionError::InvalidOption(String::from_str(arg))),
            }
        }
    }

    /// The configuration file to read: the given one when `-c` named one,
    /// else the default; `-c` without a path is refused.
    pub fn config_path(&self) -> (r: Result<String, OptionError>)
        ensures
            self@.config_flag && self@.config_path is None ==> r == Err::<String, OptionError>(OptionError::NoConfigPath),
            self@.config_flag && self@.config_path is Some ==> (r matches Ok(p) && p@ == self@.config_path->Some_0),
            !self@.config_flag ==> (r matches Ok(p) && p@ == self.conf@),
    {
        if self.config_file.0 {
            match &self.config_file.1 {
                Some(p) => Ok(p.clone()),
                None => Err(OptionError::NoConfigPath),
            }
        } else {
            Ok(self.conf.clone())
        }
    }
}

} // verus!
