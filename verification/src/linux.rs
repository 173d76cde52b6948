use vstd::prelude::*;

use crate::text::{
    chars_of, contains_text, has_prefix, lines, lines_of, skip_repeated_prefix, str_contains,
    str_eq, str_starts_with, strip_char, strip_char_bounds, strip_repeated_prefix, views,
};

verus! {

/// The distribution named by the first line of `ls` that starts with `ID=`: the rest of the line,
/// without repeated `ID=` and without quotes around it; `unknown` when there is no such line.
pub open spec fn distro_in_lines(ls: Seq<Seq<char>>) -> Seq<char>
    decreases ls.len(),
{
    if ls.len() == 0 {
        "unknown"@
    } else if has_prefix(ls[0], "ID="@) {
        strip_char(strip_repeated_prefix(ls[0], "ID="@), '"')
    } else {
        distro_in_lines(ls.drop_first())
    }
}

/// The distribution that an os-release file names (`unknown` when it could not be read).
pub open spec fn distro_text(os_release: Option<Seq<char>>) -> Seq<char> {
    match os_release {
        Some(t) => distro_in_lines(lines(t)),
        None => "unknown"@,
    }
}

pub open spec fn is_debian_family(d: Seq<char>) -> bool {
    d == "ubuntu"@ || d == "debian"@ || d == "linuxmint"@ || d == "pop"@
}

pub open spec fn is_fedora_family(d: Seq<char>) -> bool {
    d == "fedora"@ || d == "centos"@ || d == "rhel"@
}

pub open spec fn is_arch_family(d: Seq<char>) -> bool {
    d == "arch"@ || d == "manjaro"@
}

/// The packages that hold libsecret and jsoncpp on distribution `d`, in that order; the Debian
/// names serve every distribution that is neither Fedora-like nor Arch-like.
pub open spec fn dependency_packages_text(d: Seq<char>) -> (Seq<char>, Seq<char>) {
    if is_fedora_family(d) || is_arch_family(d) {
        ("libsecret"@, "jsoncpp"@)
    } else {
        ("libsecret-1-0"@, "libjsoncpp-dev"@)
    }
}

/// The package manager of distribution `d` and the arguments that make it install without
/// asking; none for a distribution it does not know.
pub open spec fn package_tool(d: Seq<char>) -> Option<(Seq<char>, Seq<Seq<char>>)> {
    if is_debian_family(d) {
        Some(("apt-get"@, seq!["install"@, "-y"@]))
    } else if is_fedora_family(d) {
        Some(("dnf"@, seq!["install"@, "-y"@]))
    } else if is_arch_family(d) {
        Some(("pacman"@, seq!["-S"@, "--noconfirm"@]))
    } else {
        None
    }
}

pub open spec fn quoted(s: Seq<char>) -> Seq<char> {
    "\""@ + s + "\""@
}

/// The items quoted and separated by commas.
pub open spec fn joined_quoted(ls: Seq<Seq<char>>) -> Seq<char>
    decreases ls.len(),
{
    if ls.len() == 0 {
        seq![]
    } else if ls.len() == 1 {
        quoted(ls[0])
    } else {
        joined_quoted(ls.drop_last()) + ", "@ + quoted(ls.last())
    }
}

/// A list of texts written as the debug form of a list of plain strings: `["a", "b"]`.
pub open spec fn quoted_list_text(ls: Seq<Seq<char>>) -> Seq<char> {
    "["@ + joined_quoted(ls) + "]"@
}

/// The distribution that an os-release file's contents name, as its first `ID=` line gives it;
/// `unknown` without such a line or without the file.
pub fn get_linux_distro(os_release: Option<&str>) -> (d: String)
    ensures
        d@ == distro_text(
            match os_release {
                Some(t) => Some(t@),
                None => None,
            },
        ),
{
    let text = match os_release {
        Some(t) => t,
        None => {
            return String::from_str("unknown");
        },
    };
    let ls = lines_of(text);
    let key = chars_of("ID=");
    let mut i: usize = 0;
    assert(views(ls@).skip(0) =~= views(ls@));
    while i < ls.len()
        invariant
            i <= ls.len(),
            views(ls@) == lines(text@),
            os_release == Some(text),
            key@ == "ID="@,
            distro_in_lines(views(ls@).skip(i as int)) == distro_in_lines(views(ls@)),
        decreases ls.len() - i,
    {
        let line = ls[i].as_str();
        let ghost rest = views(ls@).skip(i as int);
        assert(rest[0] == line@);
        assert(rest.drop_first() =~= views(ls@).skip(i + 1));
        if str_starts_with(line, "ID=") {
            let v = chars_of(line);
            let k: usize = skip_repeated_prefix(&v, &key);
            let (a, b): (usize, usize) = strip_char_bounds(&v, k, '"');
            let r = line.substring_char(a, b).to_string();
            assert(distro_in_lines(rest) == strip_char(strip_repeated_prefix(line@, "ID="@), '"'));
            return r;
        }
        i = i + 1;
    }
    assert(views(ls@).skip(i as int) =~= Seq::<Seq<char>>::empty());
    String::from_str("unknown")
}

fn is_fedora_like(d: &str) -> (b: bool)
    ensures
        b == is_fedora_family(d@),
{
    str_eq(d, "fedora") || str_eq(d, "centos") || str_eq(d, "rhel")
}

fn is_arch_like(d: &str) -> (b: bool)
    ensures
        b == is_arch_family(d@),
{
    str_eq(d, "arch") || str_eq(d, "manjaro")
}

fn is_debian_like(d: &str) -> (b: bool)
    ensures
        b == is_debian_family(d@),
{
    str_eq(d, "ubuntu") || str_eq(d, "debian") || str_eq(d, "linuxmint") || str_eq(d, "pop")
}

/// The packages of libsecret and jsoncpp on distribution `distro`.
pub fn dependency_packages(distro: &str) -> (p: (String, String))
    ensures
        (p.0@, p.1@) == dependency_packages_text(distro@),
{
    if is_fedora_like(distro) || is_arch_like(distro) {
        (String::from_str("libsecret"), String::from_str("jsoncpp"))
    } else {
        (String::from_str("libsecret-1-0"), String::from_str("libjsoncpp-dev"))
    }
}

/// The packages to install on `distro`: libsecret's when its library is absent, then jsoncpp's
/// when its library is absent.
pub fn missing_packages(distro: &str, secret_present: bool, json_present: bool) -> (m: Vec<String>)
    ensures
        views(m@) == (if secret_present {
            seq![]
        } else {
            seq![dependency_packages_text(distro@).0]
        }) + (if json_present {
            seq![]
        } else {
            seq![dependency_packages_text(distro@).1]
        }),
{
    let (secret, json) = dependency_packages(distro);
    let mut m: Vec<String> = Vec::new();
    if !secret_present {
        m.push(secret);
    }
    if !json_present {
        m.push(json);
    }
    assert(views(m@) =~= (if secret_present {
        seq![]
    } else {
        seq![dependency_packages_text(distro@).0]
    }) + (if json_present {
        seq![]
    } else {
        seq![dependency_packages_text(distro@).1]
    }));
    m
}

/// `items` written as `["a", "b"]`.
pub fn quoted_list(items: &Vec<String>) -> (s: String)
    ensures
        s@ == quoted_list_text(views(items@)),
{
    let mut s = String::from_str("[");
    let mut i: usize = 0;
    while i < items.len()
        invariant
            i <= items.len(),
            s@ == "["@ + joined_quoted(views(items@).take(i as int)),
        decreases items.len() - i,
    {
        let ghost before = views(items@).take(i as int);
        let ghost after = views(items@).take(i + 1);
        assert(after.drop_last() =~= before);
        assert(after.last() == items@[i as int]@);
        if i > 0 {
            s.append(", ");
        }
        s.append("\"");
        s.append(items[i].as_str());
        s.append("\"");
        proof {
            if i == 0 {
                assert(before =~= Seq::<Seq<char>>::empty());
                assert(s@ =~= "["@ + joined_quoted(after));
            } else {
                assert(s@ =~= "["@ + joined_quoted(after));
            }
        }
        i = i + 1;
    }
    assert(views(items@).take(items.len() as int) =~= views(items@));
    s.append("]");
    s
}

fn push_all(v: &mut Vec<String>, items: &Vec<String>)
    ensures
        views(final(v)@) == views(old(v)@) + views(items@),
{
    let mut i: usize = 0;
    while i < items.len()
        invariant
            i <= items.len(),
            views(v@) == views(old(v)@) + views(items@).take(i as int),
        decreases items.len() - i,
    {
        let ghost before = v@;
        v.push(items[i].clone());
        assert(views(v@) =~= views(before).push(items@[i as int]@));
        assert(views(items@).take(i + 1) =~= views(items@).take(i as int).push(items@[i as int]@));
        i = i + 1;
    }
    assert(views(items@).take(items.len() as int) =~= views(items@));
}

/// The command that installs `packages` on `distro` with elevated rights: `pkexec`, the package
/// manager, its arguments, then the packages; none when the distribution is not supported.
pub fn install_command(distro: &str, packages: &Vec<String>) -> (c: Option<Vec<String>>)
    ensures
        match package_tool(distro@) {
            None => c is None,
            Some((tool, args)) => c matches Some(v) && views(v@) == seq!["pkexec"@, tool] + args
                + views(packages@),
        },
{
    let (tool, a, b) = if is_debian_like(distro) {
        ("apt-get", "install", "-y")
    } else if is_fedora_like(distro) {
        ("dnf", "install", "-y")
    } else if is_arch_like(distro) {
        ("pacman", "-S", "--noconfirm")
    } else {
        return None;
    };
    let mut v: Vec<String> = Vec::new();
    v.push(String::from_str("pkexec"));
    v.push(String::from_str(tool));
    v.push(String::from_str(a));
    v.push(String::from_str(b));
    let ghost head = views(v@);
    assert(head =~= seq!["pkexec"@, tool@] + seq![a@, b@]);
    push_all(&mut v, packages);
    Some(v)
}

/// Whether the library `name` is installed: named in the output of `ldconfig -p` when that ran,
/// and otherwise the name of one of `file_names` (those of the usual library directories).
pub fn is_library_present(ldconfig: Option<&str>, file_names: &Vec<String>, name: &str) -> (b: bool)
    ensures
        b == match ldconfig {
            Some(out) => contains_text(out@, name@),
            None => exists|i: int|
                0 <= i < file_names.len() && contains_text(#[trigger] file_names@[i]@, name@),
        },
{
    match ldconfig {
        Some(out) => str_contains(out, name),
        None => {
            let mut i: usize = 0;
            while i < file_names.len()
                invariant
                    i <= file_names.len(),
                    ldconfig is None,
                    forall|j: int| 0 <= j < i ==> !contains_text(#[trigger] file_names@[j]@, name@),
                decreases file_names.len() - i,
            {
                if str_contains(file_names[i].as_str(), name) {
                    assert(contains_text(file_names@[i as int]@, name@));
                    return true;
                }
                i = i + 1;
            }
            false
        },
    }
}

/// The line logged when the missing packages are about to be installed.
pub fn missing_line(missing: &Vec<String>) -> (s: String)
    ensures
        s@ == "Missing dependencies: "@ + quoted_list_text(views(missing@))
            + ". Attempting installation..."@,
{
    String::from_str("Missing dependencies: ").concat(quoted_list(missing).as_str()).concat(
        ". Attempting installation...",
    )
}

/// The line logged before the install command runs.
pub fn running_line(command: &Vec<String>) -> (s: String)
    ensures
        s@ == "Running: "@ + quoted_list_text(views(command@)),
{
    String::from_str("Running: ").concat(quoted_list(command).as_str())
}

/// The line logged with the distribution found.
pub fn detected_line(distro: &str) -> (s: String)
    ensures
        s@ == "Detected distro: "@ + distro@,
{
    String::from_str("Detected distro: ").concat(distro)
}

/// The line logged when the dependency check begins.
pub fn checking_line() -> (s: &'static str)
    ensures
        s@ == "Checking system dependencies..."@,
{
    "Checking system dependencies..."
}

/// The line logged when the distribution has no known package manager.
pub fn unsupported_line() -> (s: &'static str)
    ensures
        s@ == "Unsupported distribution for automatic installation. Please install dependencies manually."@,
{
    "Unsupported distribution for automatic installation. Please install dependencies manually."
}

/// The line logged once the install command ended, successfully or not.
pub fn install_result_line(success: bool) -> (s: &'static str)
    ensures
        s@ == (if success {
            "Dependencies installed successfully."@
        } else {
            "Failed to install dependencies. You might need to install them manually."@
        }),
{
    if success {
        installed_line()
    } else {
        install_failed_line()
    }
}

/// The line logged when the install command succeeded.
pub fn installed_line() -> (s: &'static str)
    ensures
        s@ == "Dependencies installed successfully."@,
{
    "Dependencies installed successfully."
}

/// The line logged when the install command failed.
pub fn install_failed_line() -> (s: &'static str)
    ensures
        s@ == "Failed to install dependencies. You might need to install them manually."@,
{
    "Failed to install dependencies. You might need to install them manually."
}

/// The distribution names that the updater knows: the Debian family (ubuntu, debian, linuxmint,
/// pop), the Fedora family (fedora, centos, rhel) and the Arch family (arch, manjaro).
pub open spec fn known_distros() -> Seq<Seq<char>> {
    seq![
        "ubuntu"@,
        "debian"@,
        "linuxmint"@,
        "pop"@,
        "fedora"@,
        "centos"@,
        "rhel"@,
        "arch"@,
        "manjaro"@,
    ]
}

proof fn lemma_distro_names_distinct()
    ensures
        "ubuntu"@ != "debian"@,
        "ubuntu"@ != "linuxmint"@,
        "ubuntu"@ != "pop"@,
        "ubuntu"@ != "fedora"@,
        "ubuntu"@ != "centos"@,
        "ubuntu"@ != "rhel"@,
        "ubuntu"@ != "arch"@,
        "ubuntu"@ != "manjaro"@,
        "debian"@ != "linuxmint"@,
        "debian"@ != "pop"@,
        "debian"@ != "fedora"@,
        "debian"@ != "centos"@,
        "debian"@ != "rhel"@,
        "debian"@ != "arch"@,
        "debian"@ != "manjaro"@,
        "linuxmint"@ != "pop"@,
        "linuxmint"@ != "fedora"@,
        "linuxmint"@ != "centos"@,
        "linuxmint"@ != "rhel"@,
        "linuxmint"@ != "arch"@,
        "linuxmint"@ != "manjaro"@,
        "pop"@ != "fedora"@,
        "pop"@ != "centos"@,
        "pop"@ != "rhel"@,
        "pop"@ != "arch"@,
        "pop"@ != "manjaro"@,
        "fedora"@ != "centos"@,
        "fedora"@ != "rhel"@,
        "fedora"@ != "arch"@,
        "fedora"@ != "manjaro"@,
        "centos"@ != "rhel"@,
        "centos"@ != "arch"@,
        "centos"@ != "manjaro"@,
        "rhel"@ != "arch"@,
        "rhel"@ != "manjaro"@,
        "arch"@ != "manjaro"@,
{
    reveal_strlit("ubuntu");
    assert("ubuntu"@[0] == 'u');
    reveal_strlit("debian");
    assert("debian"@[0] == 'd');
    reveal_strlit("linuxmint");
    assert("linuxmint"@[0] == 'l');
    reveal_strlit("pop");
    assert("pop"@[0] == 'p');
    reveal_strlit("fedora");
    assert("fedora"@[0] == 'f');
    reveal_strlit("centos");
    assert("centos"@[0] == 'c');
    reveal_strlit("rhel");
    assert("rhel"@[0] == 'r');
    reveal_strlit("arch");
    assert("arch"@[0] == 'a');
    reveal_strlit("manjaro");
    assert("manjaro"@[0] == 'm');
}

/// Installing uses `apt-get install -y` on ubuntu, debian, linuxmint and pop, `dnf install -y` on
/// fedora, centos and rhel, `pacman -S --noconfirm` on arch and manjaro, and nothing on any other
/// distribution.
pub proof fn lemma_package_tool_by_name(d: Seq<char>)
    ensures
        (d == "ubuntu"@ || d == "debian"@ || d == "linuxmint"@ || d == "pop"@) ==> package_tool(d)
            == Some(("apt-get"@, seq!["install"@, "-y"@])),
        (d == "fedora"@ || d == "centos"@ || d == "rhel"@) ==> package_tool(d) == Some(
            ("dnf"@, seq!["install"@, "-y"@]),
        ),
        (d == "arch"@ || d == "manjaro"@) ==> package_tool(d) == Some(
            ("pacman"@, seq!["-S"@, "--noconfirm"@]),
        ),
        !known_distros().contains(d) ==> package_tool(d) is None,
{
    lemma_distro_names_distinct();
    if !known_distros().contains(d) {
        assert(d != known_distros()[0]);
        assert(d != known_distros()[1]);
        assert(d != known_distros()[2]);
        assert(d != known_distros()[3]);
        assert(d != known_distros()[4]);
        assert(d != known_distros()[5]);
        assert(d != known_distros()[6]);
        assert(d != known_distros()[7]);
        assert(d != known_distros()[8]);
    }
}

/// libsecret and jsoncpp are the packages `libsecret` and `jsoncpp` on fedora, centos, rhel, arch
/// and manjaro, and `libsecret-1-0` and `libjsoncpp-dev` on every other distribution.
pub proof fn lemma_dependency_packages_by_name(d: Seq<char>)
    ensures
        (d == "fedora"@ || d == "centos"@ || d == "rhel"@ || d == "arch"@ || d == "manjaro"@)
            ==> dependency_packages_text(d) == ("libsecret"@, "jsoncpp"@),
        !(d == "fedora"@ || d == "centos"@ || d == "rhel"@ || d == "arch"@ || d == "manjaro"@)
            ==> dependency_packages_text(d) == ("libsecret-1-0"@, "libjsoncpp-dev"@),
{
    lemma_distro_names_distinct();
}

} // verus!
