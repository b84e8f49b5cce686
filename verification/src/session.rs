//! Agent sessions on the execution host: the argv an agent is started
//! with, the proof that its working directory is the checkout, the files
//! the fixture agent leaves behind, and the guard on cancellation. Spawning
//! and signalling processes is the host's.

use vstd::prelude::*;
use vstd::string::StringExecFns;
use crate::canonical::{decimal_text, push_decimal};
use crate::host::{device_error_text, DeviceError};
use crate::text::{chars_of, string_from_chars, trim, trimmed};

verus! {

/// File the fixture agent writes its session id to, in its cwd.
pub const SESSION_ID_FILE: &'static str = ".aquarium-session-id";
/// File the fixture agent writes its cwd to; the host reads it back.
pub const SESSION_CWD_FILE: &'static str = ".aquarium-session-cwd";
/// File the fixture agent writes its pid to.
pub const SESSION_PID_FILE: &'static str = ".aquarium-session-pid";
/// Times the host looks for the cwd proof, 50 ms apart.
pub const CWD_PROOF_ATTEMPTS: u32 = 50;

/// The texts of a list of strings.
pub open spec fn strings(v: Seq<String>) -> Seq<Seq<char>> {
    v.map_values(|s: String| s@)
}

/// The argv of a configured agent command: the command itself, refused when
/// it is empty.
pub fn command_argv(parts: &Vec<String>) -> (r: Result<Vec<String>, DeviceError>)
    ensures
        parts@.len() == 0 <==> r is Err,
        r matches Ok(v) ==> strings(v@) == strings(parts@),
        r matches Err(e) ==> device_error_text(e) == "agent: "@ + "agent command is empty"@,
{
    if parts.len() == 0 {
        return Err(DeviceError::Agent("agent command is empty".to_string()));
    }
    let mut v: Vec<String> = Vec::new();
    let mut i: usize = 0;
    while i < parts.len()
        invariant
            i <= parts@.len(),
            strings(v@) == strings(parts@.take(i as int)),
        decreases parts@.len() - i,
    {
        let c = parts[i].clone();
        let ghost before = v@;
        v.push(c);
        proof {
            assert(v@ == before.push(c));
            assert(parts@.take(i as int + 1) =~= parts@.take(i as int).push(parts@[i as int]));
            assert(strings(v@) =~= strings(before).push(c@));
            assert(strings(parts@.take(i as int + 1)) =~= strings(parts@.take(i as int)).push(parts@[i as int]@));
        }
        i += 1;
    }
    proof { assert(parts@.take(parts@.len() as int) =~= parts@); }
    Ok(v)
}

/// The argv that runs this executable as the fixture agent of `session_id`.
pub fn fixture_argv(exe: &str, session_id: &str) -> (v: Vec<String>)
    ensures
        strings(v@) == seq![exe@, "agent-fixture"@, "--session-id"@, session_id@],
{
    let mut v: Vec<String> = Vec::new();
    v.push(exe.to_string());
    v.push("agent-fixture".to_string());
    v.push("--session-id".to_string());
    v.push(session_id.to_string());
    proof { assert(strings(v@) =~= seq![exe@, "agent-fixture"@, "--session-id"@, session_id@]); }
    v
}

/// The recorded cwd, trimmed, must be the checkout the agent was started in.
pub fn check_cwd_proof(recorded: &str, expected: &str) -> (r: Result<(), DeviceError>)
    ensures
        (trim(recorded@) == expected@) <==> r is Ok,
        r matches Err(e) ==> device_error_text(e) == "agent: "@ + ("agent cwd "@ + trim(recorded@) + " != checkout "@ + expected@),
{
    let t = trimmed(recorded);
    let e = chars_of(expected);
    if crate::text::chars_eq(&t, &e) {
        return Ok(());
    }
    let shown = string_from_chars(t.as_slice());
    Err(DeviceError::Agent("agent cwd ".to_string().concat(shown.as_str()).concat(" != checkout ").concat(expected)))
}

/// A cancellation must name a real process: pid 0 is refused.
pub fn check_cancel_pid(pid: u32) -> (r: Result<(), DeviceError>)
    ensures
        pid != 0 <==> r is Ok,
        r matches Err(e) ==> device_error_text(e) == "agent: "@ + "refusing to signal pid 0"@,
{
    if pid == 0 {
        return Err(DeviceError::Agent("refusing to signal pid 0".to_string()));
    }
    Ok(())
}

/// The files the fixture agent writes into its cwd, name and content.
pub open spec fn fixture_file_texts(session_id: Seq<char>, cwd: Seq<char>, pid: u32) -> Seq<(Seq<char>, Seq<char>)> {
    seq![
        (".aquarium-session-id"@, session_id),
        (".aquarium-session-cwd"@, cwd + "\n"@),
        (".aquarium-session-pid"@, decimal_text(pid as nat) + "\n"@),
    ]
}

/// The files the fixture agent of `session_id`, running as `pid` in `cwd`,
/// writes before it waits to be terminated.
pub fn fixture_files(session_id: &str, cwd: &str, pid: u32) -> (v: Vec<(String, String)>)
    ensures
        v@.map_values(|f: (String, String)| (f.0@, f.1@)) == fixture_file_texts(session_id@, cwd@, pid),
{
    let mut digits: Vec<char> = Vec::new();
    push_decimal(pid as u64, &mut digits);
    let pid_text = string_from_chars(digits.as_slice());
    let mut v: Vec<(String, String)> = Vec::new();
    v.push((SESSION_ID_FILE.to_string(), session_id.to_string()));
    v.push((SESSION_CWD_FILE.to_string(), cwd.to_string().concat("\n")));
    v.push((SESSION_PID_FILE.to_string(), pid_text.concat("\n")));
    proof {
        reveal_strlit(".aquarium-session-id");
        reveal_strlit(".aquarium-session-cwd");
        reveal_strlit(".aquarium-session-pid");
        assert(v@.map_values(|f: (String, String)| (f.0@, f.1@)) =~= fixture_file_texts(session_id@, cwd@, pid));
    }
    v
}

/// The fixture agent's cwd record proves the directory it runs in: it writes
/// its session id, its cwd and its pid to three distinct files, and the cwd
/// file's content, trimmed as the host's check trims it, is exactly that
/// directory (for a directory without surrounding white space).
pub proof fn lemma_fixture_cwd_record_reads_back(session_id: Seq<char>, cwd: Seq<char>, pid: u32)
    requires
        trim(cwd) == cwd,
    ensures
        ({
            let f = fixture_file_texts(session_id, cwd, pid);
            &&& f.len() == 3
            &&& f[0] == (".aquarium-session-id"@, session_id)
            &&& f[1].0 == ".aquarium-session-cwd"@
            &&& trim(f[1].1) == cwd
            &&& f[2].0 == ".aquarium-session-pid"@
            &&& f[2].1 == decimal_text(pid as nat) + "\n"@
            &&& f[0].0 != f[1].0 && f[0].0 != f[2].0 && f[1].0 != f[2].0
        }),
{
    reveal_strlit(".aquarium-session-id");
    reveal_strlit(".aquarium-session-cwd");
    reveal_strlit(".aquarium-session-pid");
    reveal_strlit("\n");
    assert(".aquarium-session-id"@.len() == 20 && ".aquarium-session-cwd"@.len() == 21 && ".aquarium-session-pid"@.len() == 21);
    assert(".aquarium-session-cwd"@[18] != ".aquarium-session-pid"@[18]);
    assert("\n"@ =~= seq!['\n']);
    crate::text::lemma_trim_drops_newline(cwd);
}

} // verus!
