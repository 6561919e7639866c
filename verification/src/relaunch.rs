//! Restarting the shell: the arguments of the shell command that waits for
//! the running process to exit and starts it again.
use crate::decimal::{decimal_chars, push_decimal_str};
use crate::text::str_eq;
use std::path::Path;
use vstd::prelude::*;
use vstd::string::*;

verus! {

/// The parent directory `Path::parent` gives of a path, if it has one.
pub uninterp spec fn path_parent_of(p: Seq<char>) -> Option<Seq<char>>;

/// The extension `Path::extension` gives of a path, if it has one.
pub uninterp spec fn path_extension_of(p: Seq<char>) -> Option<Seq<char>>;

/// `Path::parent`: its result is named `path_parent_of` of the path.
#[verifier::external_body]
fn path_parent(p: &str) -> (r: Option<&str>)
    ensures
        match r {
            Some(q) => path_parent_of(p@) == Some(q@),
            None => path_parent_of(p@) is None,
        },
{
    match Path::new(p).parent() {
        Some(q) => q.to_str(),
        None => None,
    }
}

/// `Path::extension`: its result is named `path_extension_of` of the path.
#[verifier::external_body]
fn path_extension(p: &str) -> (r: Option<&str>)
    ensures
        match r {
            Some(e) => path_extension_of(p@) == Some(e@),
            None => path_extension_of(p@) is None,
        },
{
    match Path::new(p).extension() {
        Some(e) => e.to_str(),
        None => None,
    }
}

/// The third ancestor of the executable (the `.app` bundle of
/// `X.app/Contents/MacOS/exe`), if it is an app bundle.
pub open spec fn app_bundle_of(exe: Seq<char>) -> Option<Seq<char>> {
    match path_parent_of(exe) {
        Some(a) => match path_parent_of(a) {
            Some(b) => match path_parent_of(b) {
                Some(c) => if path_extension_of(c) == Some("app"@) {
                    Some(c)
                } else {
                    None
                },
                None => None,
            },
            None => None,
        },
        None => None,
    }
}

/// The start of every relaunch script: wait while process `pid` lives.
pub open spec fn wait_prefix(pid: u32) -> Seq<char> {
    "while kill -0 "@ + decimal_chars(pid as nat) + " 2>/dev/null; do sleep 0.2; done; "@
}

/// The arguments of `sh` that start the shell again once process `pid` has
/// exited: an app bundle is opened; a bare executable is run again, with
/// `DYLD_LIBRARY_PATH` set when one that is not empty is given. The paths
/// are passed as arguments, never written into the script.
pub open spec fn spec_relaunch_plan(exe: Seq<char>, pid: u32, dyld: Option<Seq<char>>) -> Seq<
    Seq<char>,
> {
    match app_bundle_of(exe) {
        Some(app) => seq![
            "-c"@,
            wait_prefix(pid) + "open \"$1\""@,
            "vmux-relauncher"@,
            app,
        ],
        None => match dyld {
            Some(d) => if d.len() > 0 {
                seq![
                    "-c"@,
                    wait_prefix(pid) + "DYLD_LIBRARY_PATH=\"$2\" \"$1\""@,
                    "vmux-relauncher"@,
                    exe,
                    d,
                ]
            } else {
                seq!["-c"@, wait_prefix(pid) + "\"$1\""@, "vmux-relauncher"@, exe]
            },
            None => seq!["-c"@, wait_prefix(pid) + "\"$1\""@, "vmux-relauncher"@, exe],
        },
    }
}

fn script(pid: u32, tail: &str) -> (s: String)
    ensures
        s@ == wait_prefix(pid) + tail@,
{
    let mut s = "while kill -0 ".to_owned();
    push_decimal_str(&mut s, pid as u64);
    s.concat(" 2>/dev/null; do sleep 0.2; done; ").concat(tail)
}

/// The arguments of the relaunch command (see `spec_relaunch_plan`).
pub fn relaunch_plan(exe: &str, pid: u32, dyld_library_path: Option<&str>) -> (args: Vec<String>)
    ensures
        args@.map_values(|a: String| a@) == spec_relaunch_plan(
            exe@,
            pid,
            match dyld_library_path {
                Some(d) => Some(d@),
                None => None,
            },
        ),
{
    let mut bundle: Option<&str> = None;
    if let Some(a) = path_parent(exe) {
        if let Some(b) = path_parent(a) {
            if let Some(c) = path_parent(b) {
                if let Some(ext) = path_extension(c) {
                    if str_eq(ext, "app") {
                        bundle = Some(c);
                    }
                }
            }
        }
    }
    assert(match bundle {
        Some(c) => app_bundle_of(exe@) == Some(c@),
        None => app_bundle_of(exe@) is None,
    });
    let mut args: Vec<String> = Vec::new();
    match bundle {
        Some(app) => {
            args.push("-c".to_owned());
            args.push(script(pid, "open \"$1\""));
            args.push("vmux-relauncher".to_owned());
            args.push(app.to_owned());
        },
        None => {
            let with_dyld = match dyld_library_path {
                Some(d) => !d.is_empty(),
                None => false,
            };
            if with_dyld {
                let d = dyld_library_path.unwrap();
                args.push("-c".to_owned());
                args.push(script(pid, "DYLD_LIBRARY_PATH=\"$2\" \"$1\""));
                args.push("vmux-relauncher".to_owned());
                args.push(exe.to_owned());
                args.push(d.to_owned());
            } else {
                args.push("-c".to_owned());
                args.push(script(pid, "\"$1\""));
                args.push("vmux-relauncher".to_owned());
                args.push(exe.to_owned());
            }
        },
    }
    assert(args@.map_values(|a: String| a@) =~= spec_relaunch_plan(
        exe@,
        pid,
        match dyld_library_path {
            Some(d) => Some(d@),
            None => None,
        },
    ));
    args
}

/// Whether a relaunch request from a page is the one the shell answers: on
/// the `vmux-relaunch` channel.
pub fn is_relaunch_channel(channel: &str) -> (r: bool)
    ensures
        r == (channel@ == "vmux-relaunch"@),
{
    str_eq(channel, "vmux-relaunch")
}

} // verus!
