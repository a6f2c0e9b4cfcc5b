//! Package and service managers: a registry from a manager's name to the
//! commands that install, remove and list what it manages, and the selection
//! of managers that a configuration names.
use vstd::prelude::*;
use vstd::string::*;
use crate::tools::{lower_of, text_eq, to_lower};

verus! {

/// A refused manager selection.
#[derive(Debug, Clone, Copy, PartialEq, Eq, Structural)]
pub enum InstallError {
    /// More than one manager of the same family was named.
    TooMany,
    /// The name is no known manager.
    InvalidPackage,
}

/// The family of a package manager.
#[derive(Debug, Clone, Copy, PartialEq, Eq, Structural)]
pub enum Manager {
    Arch,
    Debian,
    OpenSUSE,
    Fedora,
    Vsc,
    Vscodium,
    Flatpak,
}

/// The manager family that a lower-case name selects, if any.
pub open spec fn manager_named(s: Seq<char>) -> Option<Manager> {
    if s == "paru"@ || s == "yay"@ || s == "pacman"@ { Some(Manager::Arch) }
    else if s == "apt"@ { Some(Manager::Debian) }
    else if s == "zypper"@ { Some(Manager::OpenSUSE) }
    else if s == "dnf"@ { Some(Manager::Fedora) }
    else if s == "vsc"@ || s == "code"@ || s == "vscode"@ { Some(Manager::Vsc) }
    else if s == "vscodium"@ { Some(Manager::Vscodium) }
    else if s == "flatpak"@ { Some(Manager::Flatpak) }
    else { None }
}

impl Manager {
    /// The family named by an already lower-cased string.
    pub fn from_lowered(s: &str) -> (r: Option<Manager>)
        ensures
            r == manager_named(s@),
    {
        if text_eq(s, "paru") || text_eq(s, "yay") || text_eq(s, "pacman") { Some(Manager::Arch) }
        else if text_eq(s, "apt") { Some(Manager::Debian) }
        else if text_eq(s, "zypper") { Some(Manager::OpenSUSE) }
        else if text_eq(s, "dnf") { Some(Manager::Fedora) }
        else if text_eq(s, "vsc") || text_eq(s, "code") || text_eq(s, "vscode") { Some(Manager::Vsc) }
        else if text_eq(s, "vscodium") { Some(Manager::Vscodium) }
        else if text_eq(s, "flatpak") { Some(Manager::Flatpak) }
        else { None }
    }
}

pub open spec fn texts(v: Seq<String>) -> Seq<Seq<char>> {
    Seq::new(v.len(), |i: int| v[i]@)
}

/// The managers that a configuration names, each with its packages.
pub struct Install {
    pub gather: Vec<(String, Manager, Vec<String>)>,
    /// How many Arch-family managers were named.
    pub arch: i32,
    /// How many Visual Studio Code managers were named.
    pub vsc: i32,
}

impl Install {
    pub fn new() -> (r: Install)
        ensures
            r.gather@.len() == 0,
            r.arch == 0,
            r.vsc == 0,
    {
        Install { gather: Vec::new(), arch: 0, vsc: 0 }
    }

    /// Selects the manager that `title` names, with its packages. The code
    /// editor's aliases all select `code`; any other name is kept as given.
    /// An unknown name is refused; naming a second Arch-family or code
    /// manager is refused once it has been recorded.
    pub fn matches(&mut self, title: &str, packages: Vec<String>) -> (r: Result<(), InstallError>)
        requires
            old(self).arch < 0x7fff_ffff,
            old(self).vsc < 0x7fff_ffff,
        ensures
            manager_named(lower_of(title@)) is None <==> r == Err::<(), InstallError>(InstallError::InvalidPackage),
            manager_named(lower_of(title@)) is None ==> final(self).gather@ == old(self).gather@
                && final(self).arch == old(self).arch && final(self).vsc == old(self).vsc,
            manager_named(lower_of(title@)) matches Some(m) ==> {
                &&& final(self).gather@.len() == old(self).gather@.len() + 1
                &&& final(self).gather@.subrange(0, old(self).gather@.len() as int) == old(self).gather@
                &&& final(self).gather@.last().1 == m
                &&& final(self).gather@.last().2 == packages
                &&& final(self).gather@.last().0@ == if m == Manager::Vsc { "code"@ } else { title@ }
                &&& final(self).arch == old(self).arch + if m == Manager::Arch { 1int } else { 0 }
                &&& final(self).vsc == old(self).vsc + if m == Manager::Vsc { 1int } else { 0 }
                &&& (r is Ok <==> final(self).arch <= 1 && final(self).vsc <= 1)
            },
    {
        let lowered = to_lower(title);
        match Manager::from_lowered(lowered.as_str()) {
            None => Err(InstallError::InvalidPackage),
            Some(m) => {
                match m {
                    Manager::Arch => {
                        self.gather.push((String::from_str(title), m, packages));
                        self.arch = self.arch + 1;
                    },
                    Manager::Vsc => {
                        self.gather.push((String::from_str("code"), m, packages));
                        self.vsc = self.vsc + 1;
                    },
                    _ => {
                        self.gather.push((String::from_str(title), m, packages));
                    },
                }
                if self.arch > 1 || self.vsc > 1 {
                    Err(InstallError::TooMany)
                } else {
                    Ok(())
                }
            },
        }
    }
}

/// The commands of one package manager.
pub struct Prog {
    pub prog: String,
    pub install: Vec<String>,
    pub uninstall: Vec<String>,
    pub checker: Vec<String>,
    pub packages: Vec<String>,
}

fn strings(items: &Vec<&str>) -> (r: Vec<String>)
    ensures
        r@.len() == items@.len(),
        forall|i: int| 0 <= i < items@.len() ==> #[trigger] r@[i]@ == items@[i]@,
{
    let mut out: Vec<String> = Vec::new();
    let mut i: usize = 0;
    while i < items.len()
        invariant
            i <= items@.len(),
            out@.len() == i,
            forall|j: int| 0 <= j < i ==> #[trigger] out@[j]@ == items@[j]@,
        decreases items@.len() - i,
    {
        out.push(String::from_str(items[i]));
        i = i + 1;
    }
    out
}

/// A list of string slices seen as character sequences.
pub open spec fn strs(v: Seq<&str>) -> Seq<Seq<char>> {
    Seq::new(v.len(), |i: int| v[i]@)
}

impl Prog {
    /// A manager run as `prog`, with the arguments that install, remove and
    /// list packages; no package yet.
    pub fn new(prog: &str, install: Vec<&str>, uninstall: Vec<&str>, checker: Vec<&str>) -> (r: Prog)
        ensures
            r.prog@ == prog@,
            texts(r.install@) == strs(install@),
            texts(r.uninstall@) == strs(uninstall@),
            texts(r.checker@) == strs(checker@),
            r.packages@.len() == 0,
    {
        let i = strings(&install);
        let u = strings(&uninstall);
        let c = strings(&checker);
        assert(texts(i@) =~= strs(install@));
        assert(texts(u@) =~= strs(uninstall@));
        assert(texts(c@) =~= strs(checker@));
        Prog { prog: String::from_str(prog), install: i, uninstall: u, checker: c, packages: Vec::new() }
    }
}

/// The Arch family: `pacman` goes through `sudo`, the AUR helpers run as
/// themselves.
pub struct Arch {
    pub prog: Prog,
}

/// The code editor's extension manager.
pub struct Vsc {
    pub prog: Prog,
}

pub struct Flatpak {
    pub prog: Prog,
}

pub struct Debian {
    pub prog: Prog,
}

pub struct OpenSUSE {
    pub prog: Prog,
}

pub struct Fedora {
    pub prog: Prog,
}

impl Arch {
    pub fn new(prog: &str) -> (r: Arch)
        ensures
            prog@ == "pacman"@ ==> r.prog.prog@ == "sudo"@
                && texts(r.prog.install@) == seq![prog@, "-S"@, "--noconfirm"@]
                && texts(r.prog.uninstall@) == seq![prog@, "-Rns"@, "--noconfirm"@]
                && texts(r.prog.checker@) == seq![prog@, "-Q"@],
            prog@ != "pacman"@ ==> r.prog.prog@ == prog@
                && texts(r.prog.install@) == seq!["-S"@, "--noconfirm"@]
                && texts(r.prog.uninstall@) == seq!["-Rns"@, "--noconfirm"@]
                && texts(r.prog.checker@) == seq!["-Q"@],
    {
        if text_eq(prog, "pacman") {
            let r = Arch { prog: Prog::new("sudo", vec![prog, "-S", "--noconfirm"], vec![prog, "-Rns", "--noconfirm"], vec![prog, "-Q"]) };
            assert(texts(r.prog.install@) =~= seq![prog@, "-S"@, "--noconfirm"@]);
            assert(texts(r.prog.uninstall@) =~= seq![prog@, "-Rns"@, "--noconfirm"@]);
            assert(texts(r.prog.checker@) =~= seq![prog@, "-Q"@]);
            r
        } else {
            let r = Arch { prog: Prog::new(prog, vec!["-S", "--noconfirm"], vec!["-Rns", "--noconfirm"], vec!["-Q"]) };
            assert(texts(r.prog.install@) =~= seq!["-S"@, "--noconfirm"@]);
            assert(texts(r.prog.uninstall@) =~= seq!["-Rns"@, "--noconfirm"@]);
            assert(texts(r.prog.checker@) =~= seq!["-Q"@]);
            r
        }
    }
}

impl Vsc {
    /// `vscodium` runs as itself; every other alias runs `code`.
    pub fn new(prog: &str) -> (r: Vsc)
        ensures
            r.prog.prog@ == if prog@ == "vscodium"@ { prog@ } else { "code"@ },
            texts(r.prog.install@) == seq!["--install-extension"@],
            texts(r.prog.uninstall@) == seq!["--uninstall-extension"@],
            texts(r.prog.checker@) == seq!["--list-extensions"@],
    {
        let app = if text_eq(prog, "vscodium") { prog } else { "code" };
        let r = Vsc { prog: Prog::new(app, vec!["--install-extension"], vec!["--uninstall-extension"], vec!["--list-extensions"]) };
        assert(texts(r.prog.install@) =~= seq!["--install-extension"@]);
        assert(texts(r.prog.uninstall@) =~= seq!["--uninstall-extension"@]);
        assert(texts(r.prog.checker@) =~= seq!["--list-extensions"@]);
        r
    }
}

impl Flatpak {
    pub fn new(prog: &str) -> (r: Flatpak)
        ensures
            r.prog.prog@ == prog@,
            texts(r.prog.install@) == seq!["install"@, "-y"@],
            texts(r.prog.uninstall@) == seq!["uninstall"@, "-y"@],
            texts(r.prog.checker@) == seq!["list"@],
    {
        let r = Flatpak { prog: Prog::new(prog, vec!["install", "-y"], vec!["uninstall", "-y"], vec!["list"]) };
        assert(texts(r.prog.install@) =~= seq!["install"@, "-y"@]);
        assert(texts(r.prog.uninstall@) =~= seq!["uninstall"@, "-y"@]);
        assert(texts(r.prog.checker@) =~= seq!["list"@]);
        r
    }
}

impl Debian {
    pub fn new(prog: &str) -> (r: Debian)
        ensures
            r.prog.prog@ == "sudo"@,
            texts(r.prog.install@) == seq![prog@, "-y"@, "install"@],
            texts(r.prog.uninstall@) == seq![prog@, "-y"@, "remove"@],
            texts(r.prog.checker@) == seq![prog@, "list"@, "--installed"@],
    {
        let r = Debian { prog: Prog::new("sudo", vec![prog, "-y", "install"], vec![prog, "-y", "remove"], vec![prog, "list", "--installed"]) };
        assert(texts(r.prog.install@) =~= seq![prog@, "-y"@, "install"@]);
        assert(texts(r.prog.uninstall@) =~= seq![prog@, "-y"@, "remove"@]);
        assert(texts(r.prog.checker@) =~= seq![prog@, "list"@, "--installed"@]);
        r
    }
}

impl OpenSUSE {
    pub fn new(prog: &str) -> (r: OpenSUSE)
        ensures
            r.prog.prog@ == "sudo"@,
            texts(r.prog.install@) == seq![prog@, "-n"@, "install"@],
            texts(r.prog.uninstall@) == seq![prog@, "-n"@, "remove"@],
            texts(r.prog.checker@) == seq![prog@, "search"@, "-i"@],
    {
        let r = OpenSUSE { prog: Prog::new("sudo", vec![prog, "-n", "install"], vec![prog, "-n", "remove"], vec![prog, "search", "-i"]) };
        assert(texts(r.prog.install@) =~= seq![prog@, "-n"@, "install"@]);
        assert(texts(r.prog.uninstall@) =~= seq![prog@, "-n"@, "remove"@]);
        assert(texts(r.prog.checker@) =~= seq![prog@, "search"@, "-i"@]);
        r
    }
}

impl Fedora {
    pub fn new(prog: &str) -> (r: Fedora)
        ensures
            r.prog.prog@ == "sudo"@,
            texts(r.prog.install@) == seq![prog@, "-y"@, "install"@],
            texts(r.prog.uninstall@) == seq![prog@, "-y"@, "remove"@],
            texts(r.prog.checker@) == seq![prog@, "list"@, "--installed"@],
    {
        let r = Fedora { prog: Prog::new("sudo", vec![prog, "-y", "install"], vec![prog, "-y", "remove"], vec![prog, "list", "--installed"]) };
        assert(texts(r.prog.install@) =~= seq![prog@, "-y"@, "install"@]);
        assert(texts(r.prog.uninstall@) =~= seq![prog@, "-y"@, "remove"@]);
        assert(texts(r.prog.checker@) =~= seq![prog@, "list"@, "--installed"@]);
        r
    }
}

/// The commands of one service manager.
pub struct Services {
    pub title: String,
    pub manager: String,
    /// The configuration key that lists this manager's services.
    pub stype: String,
    pub enable: Vec<String>,
    pub disable: Vec<String>,
    pub list: Vec<String>,
}

/// System-wide services, managed through `sudo systemctl`.
pub struct Systemd {
    pub service: Services,
}

/// The user's own services.
pub struct SystemdUser {
    pub service: Services,
}

impl Systemd {
    pub fn new() -> (r: Systemd)
        ensures
            r.service.title@ == "Systemd"@,
            r.service.manager@ == "sudo"@,
            r.service.stype@ == "root"@,
            texts(r.service.enable@) == seq!["systemctl"@, "enable"@],
            texts(r.service.disable@) == seq!["systemctl"@, "disable"@],
            texts(r.service.list@) == seq!["systemctl"@, "list-unit-files"@, "--state=enabled"@],
    {
        let enable = strings(&vec!["systemctl", "enable"]);
        let disable = strings(&vec!["systemctl", "disable"]);
        let list = strings(&vec!["systemctl", "list-unit-files", "--state=enabled"]);
        assert(texts(enable@) =~= seq!["systemctl"@, "enable"@]);
        assert(texts(disable@) =~= seq!["systemctl"@, "disable"@]);
        assert(texts(list@) =~= seq!["systemctl"@, "list-unit-files"@, "--state=enabled"@]);
        Systemd {
            service: Services {
                title: String::from_str("Systemd"),
                manager: String::from_str("sudo"),
                stype: String::from_str("root"),
                enable,
                disable,
                list,
            },
        }
    }
}

impl SystemdUser {
    pub fn new() -> (r: SystemdUser)
        ensures
            r.service.title@ == "SystemdUser"@,
            r.service.manager@ == "systemctl"@,
            r.service.stype@ == "user"@,
            texts(r.service.enable@) == seq!["--user"@, "enable"@],
            texts(r.service.disable@) == seq!["--user"@, "disable"@],
            texts(r.service.list@) == seq!["list-unit-files"@, "--user"@, "--state=enabled"@],
    {
        let enable = strings(&vec!["--user", "enable"]);
        let disable = strings(&vec!["--user", "disable"]);
        let list = strings(&vec!["list-unit-files", "--user", "--state=enabled"]);
        assert(texts(enable@) =~= seq!["--user"@, "enable"@]);
        assert(texts(disable@) =~= seq!["--user"@, "disable"@]);
        assert(texts(list@) =~= seq!["list-unit-files"@, "--user"@, "--state=enabled"@]);
        SystemdUser {
            service: Services {
                title: String::from_str("SystemdUser"),
                manager: String::from_str("systemctl"),
                stype: String::from_str("user"),
                enable,
                disable,
                list,
            },
        }
    }
}

/// Chooses service managers by the configuration's section names.
pub struct Service {}

impl Service {
    pub fn new() -> (r: Service) {
        Service {}
    }

    /// The service managers that a section name selects: `systemd` (in any
    /// case) selects the user's and then the system's; other names none.
    pub fn match_service(&self, title: &str) -> (r: Vec<Services>)
        ensures
            lower_of(title@) == "systemd"@ ==> r@.len() == 2 && r@[0].title@ == "SystemdUser"@
                && r@[1].title@ == "Systemd"@,
            lower_of(title@) != "systemd"@ ==> r@.len() == 0,
    {
        let lowered = to_lower(title);
        let mut out: Vec<Services> = Vec::new();
        if text_eq(lowered.as_str(), "systemd") {
            out.push(SystemdUser::new().service);
            out.push(Systemd::new().service);
        }
        out
    }
}

/// `w` occurs in `s` starting at `i`.
pub open spec fn occurs_at(s: Seq<char>, w: Seq<char>, i: int) -> bool {
    0 <= i && i + w.len() <= s.len() && s.subrange(i, i + w.len()) == w
}

/// Position `i` starts the text or follows one of the separators.
pub open spec fn bounded_before(s: Seq<char>, seps: Seq<Seq<char>>, i: int) -> bool {
    i == 0 || exists|k: int| 0 <= k < seps.len() && occurs_at(s, seps[k], i - seps[k].len())
}

/// Position `j` ends the text or starts one of the separators.
pub open spec fn bounded_after(s: Seq<char>, seps: Seq<Seq<char>>, j: int) -> bool {
    j == s.len() || exists|k: int| 0 <= k < seps.len() && occurs_at(s, seps[k], j)
}

/// `w` occurs at `i` as a whole entry: bounded on both sides.
pub open spec fn listed_at(s: Seq<char>, w: Seq<char>, seps: Seq<Seq<char>>, i: int) -> bool {
    occurs_at(s, w, i) && bounded_before(s, seps, i) && bounded_after(s, seps, i + w.len())
}

/// `w` appears in a manager's listing as a whole entry.
pub open spec fn listed(s: Seq<char>, w: Seq<char>, seps: Seq<Seq<char>>) -> bool {
    exists|i: int| 0 <= i <= s.len() && listed_at(s, w, seps, i)
}

pub open spec fn char_views(v: Seq<Vec<char>>) -> Seq<Seq<char>> {
    Seq::new(v.len(), |k: int| v[k]@)
}

/// The characters of a string.
pub fn chars_of(s: &str) -> (r: Vec<char>)
    ensures
        r@ == s@,
{
    let n = s.unicode_len();
    let mut out: Vec<char> = Vec::new();
    let mut i: usize = 0;
    while i < n
        invariant
            n == s@.len(),
            i <= n,
            out@ == s@.subrange(0, i as int),
        decreases n - i,
    {
        out.push(s.get_char(i));
        assert(out@ =~= s@.subrange(0, i + 1));
        i = i + 1;
    }
    assert(s@.subrange(0, n as int) =~= s@);
    out
}

fn occurs(s: &Vec<char>, w: &Vec<char>, i: usize) -> (r: bool)
    ensures
        r == occurs_at(s@, w@, i as int),
{
    if i > s.len() || w.len() > s.len() - i {
        return false;
    }
    let n = s.len();
    let mut k: usize = 0;
    while k < w.len()
        invariant
            n == s@.len(),
            i + w@.len() <= s@.len(),
            k <= w@.len(),
            forall|j: int| 0 <= j < k ==> s@[i + j] == w@[j],
        decreases w@.len() - k,
    {
        assert(i + k < s@.len());
        if s[i + k] != w[k] {
            assert(s@.subrange(i as int, i + w@.len())[k as int] != w@[k as int]);
            return false;
        }
        k = k + 1;
    }
    assert(s@.subrange(i as int, i + w@.len()) =~= w@);
    true
}

fn sep_before(s: &Vec<char>, seps: &Vec<Vec<char>>, i: usize) -> (r: bool)
    ensures
        r == bounded_before(s@, char_views(seps@), i as int),
{
    if i == 0 {
        return true;
    }
    let mut k: usize = 0;
    while k < seps.len()
        invariant
            i > 0,
            k <= seps@.len(),
            forall|j: int| 0 <= j < k ==> !occurs_at(s@, #[trigger] char_views(seps@)[j], i - char_views(seps@)[j].len()),
        decreases seps@.len() - k,
    {
        let n = seps[k].len();
        if n <= i && occurs(s, &seps[k], i - n) {
            assert(char_views(seps@)[k as int] == seps@[k as int]@);
            return true;
        }
        assert(char_views(seps@)[k as int] == seps@[k as int]@);
        k = k + 1;
    }
    false
}

fn sep_after(s: &Vec<char>, seps: &Vec<Vec<char>>, j: usize) -> (r: bool)
    ensures
        r == bounded_after(s@, char_views(seps@), j as int),
{
    if j == s.len() {
        return true;
    }
    let mut k: usize = 0;
    while k < seps.len()
        invariant
            j != s@.len(),
            k <= seps@.len(),
            forall|m: int| 0 <= m < k ==> !occurs_at(s@, #[trigger] char_views(seps@)[m], j as int),
        decreases seps@.len() - k,
    {
        if occurs(s, &seps[k], j) {
            assert(char_views(seps@)[k as int] == seps@[k as int]@);
            return true;
        }
        assert(char_views(seps@)[k as int] == seps@[k as int]@);
        k = k + 1;
    }
    false
}

/// Whether `w` appears in the listing `s` as a whole entry, bounded by the
/// text's ends or by one of `seps`.
pub fn is_listed(s: &Vec<char>, w: &Vec<char>, seps: &Vec<Vec<char>>) -> (r: bool)
    ensures
        r == listed(s@, w@, char_views(seps@)),
{
    if w.len() > s.len() {
        assert(!listed(s@, w@, char_views(seps@)));
        return false;
    }
    let n = s.len();
    let last = n - w.len();
    let mut i: usize = 0;
    let mut done = false;
    while !done
        invariant
            n == s@.len(),
            w@.len() <= n,
            last == n - w@.len(),
            i <= last,
            !done ==> forall|j: int| 0 <= j < i ==> !listed_at(s@, w@, char_views(seps@), j),
            done ==> forall|j: int| 0 <= j <= last ==> !listed_at(s@, w@, char_views(seps@), j),
        decreases last - i + if done { 0int } else { 1 },
    {
        if occurs(s, w, i) && sep_before(s, seps, i) && sep_after(s, seps, i + w.len()) {
            assert(listed_at(s@, w@, char_views(seps@), i as int));
            return true;
        }
        assert(!listed_at(s@, w@, char_views(seps@), i as int));
        if i == last {
            done = true;
        } else {
            i = i + 1;
        }
    }
    assert forall|j: int| 0 <= j <= s@.len() implies !listed_at(s@, w@, char_views(seps@), j) by {
        if j > last as int {
            assert(!occurs_at(s@, w@, j));
        }
    }
    false
}

/// The separators between entries of a package listing (as printed with
/// escapes): a quote, an escaped newline or tab, or a space.
pub open spec fn package_separators() -> Seq<Seq<char>> {
    seq![seq!['"'], seq!['\\', 'n'], seq!['\\', 't'], seq![' ']]
}

/// What follows or precedes a unit in a service listing: an escaped
/// newline, or the `.service` suffix.
pub open spec fn service_separators() -> Seq<Seq<char>> {
    seq![seq!['\\', 'n'], seq!['.', 's', 'e', 'r', 'v', 'i', 'c', 'e']]
}

fn package_seps() -> (r: Vec<Vec<char>>)
    ensures
        char_views(r@) == package_separators(),
{
    let r = vec![vec!['"'], vec!['\\', 'n'], vec!['\\', 't'], vec![' ']];
    assert(r@[0]@ =~= seq!['"']);
    assert(r@[1]@ =~= seq!['\\', 'n']);
    assert(r@[2]@ =~= seq!['\\', 't']);
    assert(r@[3]@ =~= seq![' ']);
    assert(char_views(r@) =~= package_separators());
    r
}

fn service_seps() -> (r: Vec<Vec<char>>)
    ensures
        char_views(r@) == service_separators(),
{
    let r = vec![vec!['\\', 'n'], vec!['.', 's', 'e', 'r', 'v', 'i', 'c', 'e']];
    assert(r@[0]@ =~= seq!['\\', 'n']);
    assert(r@[1]@ =~= seq!['.', 's', 'e', 'r', 'v', 'i', 'c', 'e']);
    assert(char_views(r@) =~= service_separators());
    r
}

impl Prog {
    /// Whether `package` is among the installed packages that the manager
    /// listed (the listing as printed with escapes).
    pub fn installed(&self, listing: &Vec<char>, package: &str) -> (r: bool)
        ensures
            r == listed(listing@, package@, package_separators()),
    {
        is_listed(listing, &chars_of(package), &package_seps())
    }

    /// The declared packages that the listing does not show, in order.
    pub fn to_install(&self, listing: &Vec<char>, packages: &Vec<String>) -> (r: Vec<String>)
        ensures
            texts(r@) == missing(listing@, texts(packages@)),
    {
        let mut out: Vec<String> = Vec::new();
        let mut i: usize = 0;
        while i < packages.len()
            invariant
                i <= packages@.len(),
                texts(out@) == missing(listing@, texts(packages@).subrange(0, i as int)),
            decreases packages@.len() - i,
        {
            let ghost pre = texts(packages@).subrange(0, i + 1);
            assert(pre.drop_last() =~= texts(packages@).subrange(0, i as int));
            assert(pre.last() == packages@[i as int]@);
            if !self.installed(listing, packages[i].as_str()) {
                let ghost before = out@;
                out.push(packages[i].clone());
                assert(texts(out@) =~= texts(before).push(packages@[i as int]@));
            }
            i = i + 1;
        }
        assert(texts(packages@).subrange(0, packages@.len() as int) =~= texts(packages@));
        out
    }
}

/// The packages of `declared` that the listing does not show, in order.
pub open spec fn missing(listing: Seq<char>, declared: Seq<Seq<char>>) -> Seq<Seq<char>>
    decreases declared.len(),
{
    if declared.len() == 0 {
        declared
    } else {
        let rest = missing(listing, declared.drop_last());
        if listed(listing, declared.last(), package_separators()) { rest } else { rest.push(declared.last()) }
    }
}

impl Services {
    /// Whether `service` is among the enabled units that the manager listed.
    pub fn enabled(&self, listing: &Vec<char>, service: &str) -> (r: bool)
        ensures
            r == listed(listing@, service@, service_separators()),
    {
        is_listed(listing, &chars_of(service), &service_seps())
    }
}

/// The positions below `n` of the entries that are (or, with `arch` false,
/// are not) of the Arch family, in order.
pub open spec fn family_positions(gather: Seq<(String, Manager, Vec<String>)>, n: int, arch: bool) -> Seq<usize>
    decreases n,
{
    if n <= 0 {
        Seq::empty()
    } else {
        let rest = family_positions(gather, n - 1, arch);
        if (gather[n - 1].1 == Manager::Arch) == arch { rest.push((n - 1) as usize) } else { rest }
    }
}

impl Install {
    /// The order in which the selected managers run: the Arch family first
    /// (system packages before everything else), then the others, each group
    /// in the order it was named.
    pub fn structure(&self) -> (r: Vec<usize>)
        ensures
            r@ == family_positions(self.gather@, self.gather@.len() as int, true)
                + family_positions(self.gather@, self.gather@.len() as int, false),
    {
        let mut arch: Vec<usize> = Vec::new();
        let mut other: Vec<usize> = Vec::new();
        let mut i: usize = 0;
        while i < self.gather.len()
            invariant
                i <= self.gather@.len(),
                arch@ == family_positions(self.gather@, i as int, true),
                other@ == family_positions(self.gather@, i as int, false),
            decreases self.gather@.len() - i,
        {
            if self.gather[i].1 == Manager::Arch {
                arch.push(i);
            } else {
                other.push(i);
            }
            i = i + 1;
        }
        let mut k: usize = 0;
        let ghost first = arch@;
        while k < other.len()
            invariant
                k <= other@.len(),
                arch@ == first + other@.subrange(0, k as int),
            decreases other@.len() - k,
        {
            arch.push(other[k]);
            assert(arch@ =~= first + other@.subrange(0, k + 1));
            k = k + 1;
        }
        assert(other@.subrange(0, other@.len() as int) =~= other@);
        arch
    }
}

} // verus!
