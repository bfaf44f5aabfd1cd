//! Auto-launch registration decisions: validating the application id,
//! deriving the autostart desktop-file path, composing the file's
//! contents, and reading the enabled marker back. The shell does the
//! reads and writes.

use vstd::prelude::*;

use crate::chars::{contains_str, has_substring};

verus! {

/// Why an application id is refused.
#[derive(Clone, Copy, Debug, PartialEq, Eq, Structural)]
pub enum AutoLaunchError {
    /// The id holds a path separator or a parent-directory run, which
    /// would escape the autostart directory.
    InvalidAppId,
}

/// Whether an application id is safe to use as a file name: it holds no
/// `/` and no `..`.
pub open spec fn app_id_valid(app_id: Seq<char>) -> bool {
    !app_id.contains('/') && !has_substring(app_id, ".."@)
}

/// Refuse an application id that could escape the autostart directory.
pub fn validate_app_id(app_id: &str) -> (r: Result<(), AutoLaunchError>)
    ensures
        r == Ok::<(), AutoLaunchError>(()) <==> app_id_valid(app_id@),
        r is Err ==> r == Err::<(), AutoLaunchError>(AutoLaunchError::InvalidAppId),
{
    proof {
        reveal_strlit("/");
        reveal_strlit("..");
    }
    if contains_str(app_id, "/") || contains_str(app_id, "..") {
        proof {
            if has_substring(app_id@, "/"@) {
                let i = choose|i: int|
                    0 <= i <= app_id@.len() - 1 && #[trigger] app_id@.subrange(i, i + 1) == "/"@;
                assert(app_id@.subrange(i, i + 1)[0] == app_id@[i]);
                assert(app_id@.contains('/'));
            }
        }
        Err(AutoLaunchError::InvalidAppId)
    } else {
        proof {
            if app_id@.contains('/') {
                let i = choose|i: int| 0 <= i < app_id@.len() && app_id@[i] == '/';
                assert(app_id@.subrange(i, i + 1) =~= "/"@);
            }
        }
        Ok(())
    }
}

/// The autostart desktop-file path for an application id under a
/// configuration directory.
pub open spec fn desktop_file_path_spec(config_dir: Seq<char>, app_id: Seq<char>) -> Seq<char> {
    config_dir + "/autostart/"@ + app_id + ".desktop"@
}

/// Derive the autostart desktop-file path:
/// `<config_dir>/autostart/<app_id>.desktop`.
pub fn desktop_file_path(config_dir: &str, app_id: &str) -> (r: String)
    ensures
        r@ == desktop_file_path_spec(config_dir@, app_id@),
{
    let mut out = String::new();
    out.append(config_dir);
    out.append("/autostart/");
    out.append(app_id);
    out.append(".desktop");
    out
}

/// The contents of the desktop entry that makes an executable start with
/// the session.
pub open spec fn desktop_entry_spec(app_id: Seq<char>, exe_path: Seq<char>) -> Seq<char> {
    "[Desktop Entry]\nType=Application\nName="@ + app_id + "\nExec=\""@ + exe_path
        + "\"\nX-GNOME-Autostart-enabled=true\n"@
}

/// Compose the desktop entry for an application id and its executable.
pub fn desktop_entry_content(app_id: &str, exe_path: &str) -> (r: String)
    ensures
        r@ == desktop_entry_spec(app_id@, exe_path@),
{
    let mut out = String::new();
    out.append("[Desktop Entry]\nType=Application\nName=");
    out.append(app_id);
    out.append("\nExec=\"");
    out.append(exe_path);
    out.append("\"\nX-GNOME-Autostart-enabled=true\n");
    out
}

/// The marker that switches a desktop entry off.
pub open spec fn disabled_marker() -> Seq<char> {
    "X-GNOME-Autostart-enabled=false"@
}

/// Whether a desktop file's contents mean auto-launch is enabled: any
/// contents count as enabled unless they carry the explicit disabled
/// marker.
pub open spec fn autostart_enabled_spec(content: Seq<char>) -> bool {
    !has_substring(content, disabled_marker())
}

/// Writing then reading round-trips: the composed desktop entry never
/// carries the disabled marker, as long as neither the application id nor
/// the executable path carries it, so reading the entry back always
/// reports auto-launch as enabled.
pub proof fn lemma_entry_reads_back_enabled(app_id: Seq<char>, exe_path: Seq<char>)
    requires
        !has_substring(app_id, disabled_marker()),
        !has_substring(exe_path, disabled_marker()),
    ensures
        autostart_enabled_spec(desktop_entry_spec(app_id, exe_path)),
{
    reveal_strlit("X-GNOME-Autostart-enabled=false");
    reveal_strlit("[Desktop Entry]\nType=Application\nName=");
    reveal_strlit("\nExec=\"");
    reveal_strlit("\"\nX-GNOME-Autostart-enabled=true\n");
    let m = disabled_marker();
    let front = "[Desktop Entry]\nType=Application\nName="@;
    let middle = "\nExec=\""@;
    let back = "\"\nX-GNOME-Autostart-enabled=true\n"@;
    let s = desktop_entry_spec(app_id, exe_path);
    assert(m.len() == 31);
    assert(front.len() == 38);
    assert(middle.len() == 7);
    assert(back.len() == 33);
    // the marker holds no newline and no quote, starts with the one
    // letter that only the enabled line of the template carries, and
    // differs from the enabled line at the `false` position
    assert(forall|k: int| 0 <= k < 31 ==> m[k] != '\n');
    assert(forall|k: int| 0 <= k < 31 ==> m[k] != '"');
    assert(m[0] == 'X');
    assert(m[26] == 'f');
    assert(forall|p: int| 0 <= p < 38 ==> front[p] != 'X');
    assert(forall|p: int| 0 <= p < 7 ==> middle[p] != 'X');
    assert(forall|p: int| 0 <= p < 33 && p != 2 ==> back[p] != 'X');
    assert(middle[0] == '\n');
    assert(back[0] == '"');
    assert(back[28] == 't');
    // where each position of the composed entry comes from
    let a_end = 38 + app_id.len() as int;
    let q_end = a_end + 7;
    let e_end = q_end + exe_path.len() as int;
    assert(s.len() == e_end + 33);
    assert forall|p: int| 0 <= p < s.len() implies s[p] == (if p < 38 {
        front[p]
    } else if p < a_end {
        app_id[p - 38]
    } else if p < q_end {
        middle[p - a_end]
    } else if p < e_end {
        exe_path[p - q_end]
    } else {
        back[p - e_end]
    }) by {
        assert(s == front + app_id + middle + exe_path + back);
    }
    if has_substring(s, m) {
        let i = choose|i: int|
            0 <= i <= s.len() - m.len() && #[trigger] s.subrange(i, i + m.len()) == m;
        assert forall|k: int| 0 <= k < 31 implies s[i + k] == m[k] by {
            assert(s.subrange(i, i + m.len())[k] == s[i + k]);
        }
        assert(s[i] == 'X');
        if i < 38 {
            assert(front[i] == 'X');
            assert(false);
        } else if i < a_end {
            let j = i - 38;
            if i + 31 <= a_end {
                assert(app_id.subrange(j, j + m.len()) =~= m) by {
                    assert(forall|k: int|
                        0 <= k < 31 ==> #[trigger] app_id.subrange(j, j + 31)[k] == app_id[j + k]
                            == s[i + k]);
                }
                assert(has_substring(app_id, m));
                assert(false);
            } else {
                // the occurrence would reach the newline after the name
                let k0 = a_end - i;
                assert(s[a_end] == middle[0]);
                assert(m[k0] == '\n');
                assert(false);
            }
        } else if i < q_end {
            assert(middle[i - a_end] == 'X');
            assert(false);
        } else if i < e_end {
            let j = i - q_end;
            if i + 31 <= e_end {
                assert(exe_path.subrange(j, j + m.len()) =~= m) by {
                    assert(forall|k: int|
                        0 <= k < 31 ==> #[trigger] exe_path.subrange(j, j + 31)[k] == exe_path[j
                            + k] == s[i + k]);
                }
                assert(has_substring(exe_path, m));
                assert(false);
            } else {
                // the occurrence would reach the closing quote
                let k0 = e_end - i;
                assert(s[e_end] == back[0]);
                assert(m[k0] == '"');
                assert(false);
            }
        } else {
            // only the enabled line of the template starts with the
            // marker's letter, and it spells `true`, not `false`
            let j = i - e_end;
            assert(back[j] == 'X');
            assert(j == 2);
            assert(s[i + 26] == back[28]);
            assert(m[26] == 'f');
            assert(false);
        }
    }
}

/// Read the enabled marker out of a desktop file's contents.
pub fn is_autostart_content_enabled(content: &str) -> (r: bool)
    ensures
        r == autostart_enabled_spec(content@),
{
    !contains_str(content, "X-GNOME-Autostart-enabled=false")
}

} // verus!
