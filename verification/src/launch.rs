//! Launch orchestration: composing the command line that a launch writes
//! into a session, deciding whether a launch must first spawn an engine, and
//! expanding a home-reference prefix in a directory path.

use vstd::prelude::*;
use vstd::string::*;
use crate::MAX_CELLS;
use crate::session::Multiplexer;
use crate::text::push_char;

verus! {

/// The tool command a launch falls back to when none is supplied.
pub const DEFAULT_TOOL_CMD: &'static str = "agent";

/// Geometry a launch-spawned engine starts with.
pub const DEFAULT_COLS: u16 = 80;

/// Geometry a launch-spawned engine starts with.
pub const DEFAULT_ROWS: u16 = 24;

/// Milliseconds a launch waits after spawning before it writes the command,
/// masking shell startup latency.
pub const SHELL_READY_DELAY_MS: u64 = 500;

/// Whether `c` carries the Unicode White_Space property, as the standard
/// library's whitespace test defines it.
pub open spec fn is_space(c: char) -> bool {
    ||| c as u32 == 0x20
    ||| (0x9 <= c as u32 <= 0xD)
    ||| c as u32 == 0x85
    ||| c as u32 == 0xA0
    ||| c as u32 == 0x1680
    ||| (0x2000 <= c as u32 <= 0x200A)
    ||| c as u32 == 0x2028
    ||| c as u32 == 0x2029
    ||| c as u32 == 0x202F
    ||| c as u32 == 0x205F
    ||| c as u32 == 0x3000
}

/// Whether `s` holds nothing but whitespace (so trimming it leaves nothing).
pub open spec fn all_space(s: Seq<char>) -> bool {
    forall|i: int| 0 <= i < s.len() ==> is_space(#[trigger] s[i])
}

/// Whether `c` carries the Unicode White_Space property.
pub fn char_is_space(c: char) -> (r: bool)
    ensures
        r == is_space(c),
{
    let u = c as u32;
    u == 0x20 || (0x9 <= u && u <= 0xD) || u == 0x85 || u == 0xA0 || u == 0x1680 || (0x2000 <= u
        && u <= 0x200A) || u == 0x2028 || u == 0x2029 || u == 0x202F || u == 0x205F || u == 0x3000
}

/// Whether `s` holds nothing but whitespace.
pub fn is_blank(s: &str) -> (r: bool)
    ensures
        r == all_space(s@),
{
    let n = s.unicode_len();
    for i in 0..n
        invariant
            n == s@.len(),
            forall|j: int| 0 <= j < i ==> is_space(#[trigger] s@[j]),
    {
        if !char_is_space(s.get_char(i)) {
            return false;
        }
    }
    true
}

/// The command line a launch writes into a session: the tool command (the
/// fixed default when the given one is blank), preceded — when a non-blank
/// working directory is given — by creating and entering that directory, and
/// ended by a newline.
pub open spec fn spec_launch_command(work_dir: Option<Seq<char>>, tool_cmd: Seq<char>) -> Seq<
    char,
> {
    let cmd = if all_space(tool_cmd) {
        DEFAULT_TOOL_CMD@
    } else {
        tool_cmd
    };
    match work_dir {
        Some(d) => if !all_space(d) {
            "mkdir -p "@ + d + " && cd "@ + d + " && "@ + cmd + "\n"@
        } else {
            cmd + "\n"@
        },
        None => cmd + "\n"@,
    }
}

/// The view of an optional string slice.
pub open spec fn opt_view(s: Option<&str>) -> Option<Seq<char>> {
    match s {
        Some(x) => Some(x@),
        None => None,
    }
}

/// Composes the command line that a launch writes into a session.
pub fn make_launch_command(work_dir: Option<&str>, tool_cmd: &str) -> (r: String)
    ensures
        r@ == spec_launch_command(opt_view(work_dir), tool_cmd@),
{
    let mut s = String::new();
    let cmd: &str = if is_blank(tool_cmd) {
        DEFAULT_TOOL_CMD
    } else {
        tool_cmd
    };
    let use_dir: bool = match work_dir {
        Some(d) => !is_blank(d),
        None => false,
    };
    if use_dir {
        let d = match work_dir {
            Some(d) => d,
            None => "",
        };
        s.append("mkdir -p ");
        s.append(d);
        s.append(" && cd ");
        s.append(d);
        s.append(" && ");
    }
    s.append(cmd);
    push_char(&mut s, '\n');
    proof {
        reveal_strlit("\n");
        assert(seq!['\n'] =~= "\n"@);
        assert(s@ =~= spec_launch_command(opt_view(work_dir), tool_cmd@));
    }
    s
}

/// What one launch does to the session in slot `i`: whether an engine must be
/// spawned first (then the settle delay paid), and the one command line that
/// is then written into the session.
pub struct LaunchPlan {
    /// True exactly when the slot has no attached engine, so the launch
    /// performs exactly one spawn before writing.
    pub spawn_first: bool,
    /// The composed command line to write.
    pub command: String,
}

/// Plans a launch on slot `i`: spawn exactly once — only when no engine is
/// attached — then write exactly one composed command line reflecting the
/// optional working directory.
pub fn plan_launch(
    mux: &Multiplexer,
    i: usize,
    work_dir: Option<&str>,
    tool_cmd: &str,
) -> (r: LaunchPlan)
    requires
        mux@.wf(),
        i < MAX_CELLS,
    ensures
        r.spawn_first == (mux@.attached[i as int] is None),
        r.command@ == spec_launch_command(opt_view(work_dir), tool_cmd@),
{
    LaunchPlan {
        spawn_first: !mux.has_engine(i),
        command: make_launch_command(work_dir, tool_cmd),
    }
}

/// `path` with a leading home reference replaced by `home`: used for the
/// filesystem side of launches; the text written into a session stays
/// unexpanded.
pub open spec fn spec_expand_tilde(path: Seq<char>, home: Seq<char>) -> Seq<char> {
    if path.len() >= 2 && path[0] == '~' && path[1] == '/' {
        home + "/"@ + path.skip(2)
    } else {
        path
    }
}

/// Replaces a leading home reference in `path` by `home`.
pub fn expand_tilde_with(path: &str, home: &str) -> (r: String)
    ensures
        r@ == spec_expand_tilde(path@, home@),
{
    let n = path.unicode_len();
    if n >= 2 && path.get_char(0) == '~' && path.get_char(1) == '/' {
        let rest = path.substring_char(2, n);
        let mut s = home.to_owned();
        s.append("/");
        s.append(rest);
        proof {
            assert(s@ =~= spec_expand_tilde(path@, home@));
        }
        s
    } else {
        path.to_owned()
    }
}

/// Relies on `dirs::home_dir`: the user's home directory, when the platform
/// reports one. The result depends on the environment, so nothing more is
/// assumed of it.
#[verifier::external_body]
fn home_dir_string() -> (r: Option<String>)
{
    dirs::home_dir().map(|p| p.to_string_lossy().into_owned())
}

/// Replaces a leading home reference in `path` by the resolved home
/// directory; without a home reference the path is unchanged, and with one
/// it is either unchanged (no home directory was reported) or rewritten to
/// some home directory followed by the path's remainder.
pub fn expand_tilde(path: &str) -> (r: String)
    ensures
        !(path@.len() >= 2 && path@[0] == '~' && path@[1] == '/') ==> r@ == path@,
        (path@.len() >= 2 && path@[0] == '~' && path@[1] == '/') ==> (r@ == path@ || exists|h: Seq<char>|
            r@ == h + "/"@ + path@.skip(2)),
{
    match home_dir_string() {
        Some(home) => {
            let r = expand_tilde_with(path, home.as_str());
            proof {
                if path@.len() >= 2 && path@[0] == '~' && path@[1] == '/' {
                    assert(r@ == home@ + "/"@ + path@.skip(2));
                }
            }
            r
        },
        None => path.to_owned(),
    }
}

} // verus!
