use vstd::prelude::*;

verus! {

/// The desktop entry that lists the launcher in application menus, starting `exec` with the
/// icon `icon`.
pub open spec fn desktop_entry_text(exec: Seq<char>, icon: Seq<char>) -> Seq<char> {
    "[Desktop Entry]\nType=Application\nName=Morpheus Launcher\nExec="@ + exec + "\nIcon="@ + icon
        + "\nTerminal=false\nCategories=Game;\n"@
}

/// The PowerShell command that makes the desktop shortcut `lnk` to `target` with the icon `icon`.
pub open spec fn shortcut_script_text(lnk: Seq<char>, target: Seq<char>, icon: Seq<char>) -> Seq<
    char,
> {
    "$s=(New-Object -COM WScript.Shell).CreateShortcut('"@ + lnk + "');$s.TargetPath='"@ + target
        + "';$s.IconLocation='"@ + icon + "';$s.Save()"@
}

/// The contents of the launcher's `.desktop` file.
pub fn desktop_entry(exec: &str, icon: &str) -> (s: String)
    ensures
        s@ == desktop_entry_text(exec@, icon@),
{
    String::from_str("[Desktop Entry]\nType=Application\nName=Morpheus Launcher\nExec=").concat(
        exec,
    ).concat("\nIcon=").concat(icon).concat("\nTerminal=false\nCategories=Game;\n")
}

/// The PowerShell command that creates the Windows desktop shortcut.
pub fn shortcut_script(lnk: &str, target: &str, icon: &str) -> (s: String)
    ensures
        s@ == shortcut_script_text(lnk@, target@, icon@),
{
    String::from_str("$s=(New-Object -COM WScript.Shell).CreateShortcut('").concat(lnk).concat(
        "');$s.TargetPath='",
    ).concat(target).concat("';$s.IconLocation='").concat(icon).concat("';$s.Save()")
}

} // verus!
