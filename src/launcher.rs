use crate::text::{lower_of, lowercase};
use vstd::prelude::*;
use vstd::string::StringExecFns;

verus! {

/// The value the console query gives when no session is attached.
pub const NO_SESSION: u32 = 0xFFFF_FFFF;

/// One entry of an enumeration of the machine's sessions.
pub struct SessionInfo {
    pub session_id: u32,
    pub active: bool,
}

/// One entry of a process snapshot: a process and the image it runs, as a
/// full path or as a bare file name, depending on how it was read.
pub struct ProcessEntry {
    pub process_id: u32,
    pub image: String,
}

/// The command line for launching `path`: the path in double quotes, then
/// a space and the arguments where there are any.
pub open spec fn command_line_of(path: Seq<char>, args: Option<Seq<char>>) -> Seq<char> {
    let quoted = seq!['"'] + path + seq!['"'];
    match args {
        Some(a) => quoted + seq![' '] + a,
        None => quoted,
    }
}

pub fn command_line(exe_path: &str, args: Option<&str>) -> (r: String)
    ensures
        r@ == command_line_of(exe_path@, match args {
            Some(a) => Some(a@),
            None => None,
        }),
{
    proof {
        reveal_strlit("\"");
        reveal_strlit(" ");
    }
    let quoted = "\"".to_string().concat(exe_path).concat("\"");
    match args {
        Some(a) => {
            let r = quoted.concat(" ").concat(a);
            assert(r@ =~= command_line_of(exe_path@, Some(a@)));
            r
        },
        None => {
            assert(quoted@ =~= command_line_of(exe_path@, None));
            quoted
        },
    }
}

/// The id of the first active session of an enumeration.
pub open spec fn first_active(ss: Seq<SessionInfo>) -> Option<u32>
    decreases ss.len(),
{
    if ss.len() == 0 {
        None
    } else if ss[0].active {
        Some(ss[0].session_id)
    } else {
        first_active(ss.drop_first())
    }
}

/// The session to launch in: the console session where one is attached,
/// otherwise the first active session of the enumeration, otherwise none.
pub fn select_session(console_session: u32, sessions: &Vec<SessionInfo>) -> (r: Option<u32>)
    ensures
        r == if console_session != NO_SESSION {
            Some(console_session)
        } else {
            first_active(sessions@)
        },
{
    if console_session != NO_SESSION {
        return Some(console_session);
    }
    let mut i: usize = 0;
    assert(sessions@.subrange(0, sessions@.len() as int) =~= sessions@);
    while i < sessions.len()
        invariant
            console_session == NO_SESSION,
            i <= sessions@.len(),
            first_active(sessions@) == first_active(sessions@.subrange(i as int, sessions@.len() as int)),
        decreases sessions@.len() - i,
    {
        assert(sessions@.subrange(i as int, sessions@.len() as int).drop_first() =~= sessions@.subrange(
            i + 1,
            sessions@.len() as int,
        ));
        if sessions[i].active {
            return Some(sessions[i].session_id);
        }
        i = i + 1;
    }
    assert(sessions@.subrange(i as int, sessions@.len() as int).len() == 0);
    None
}

/// Whether `s` ends with `suffix`.
pub open spec fn ends_with(s: Seq<char>, suffix: Seq<char>) -> bool {
    s.len() >= suffix.len() && s.subrange(s.len() - suffix.len(), s.len() as int) == suffix
}

/// Relies on `str::ends_with` with a `&str` pattern: whether `suffix` is a
/// suffix of `s`.
#[verifier::external_body]
fn text_ends_with(s: &str, suffix: &str) -> (r: bool)
    ensures
        r == ends_with(s@, suffix@),
{
    s.ends_with(suffix)
}

/// An image path matches `path` where the two are equal without regard to case.
pub open spec fn path_matches(image: Seq<char>, path: Seq<char>) -> bool {
    lower_of(image) == lower_of(path)
}

/// An image matches a process name where, without regard to case, it is the
/// name or a path ending in a backslash and the name.
pub open spec fn name_matches(image: Seq<char>, name: Seq<char>) -> bool {
    lower_of(image) == lower_of(name) || ends_with(lower_of(image), seq!['\\'] + lower_of(name))
}

/// Whether `k` is the first entry whose image satisfies `m`.
pub open spec fn is_first_match(entries: Seq<ProcessEntry>, m: spec_fn(Seq<char>) -> bool, k: int) -> bool {
    &&& 0 <= k < entries.len()
    &&& m(entries[k].image@)
    &&& forall|j: int| 0 <= j < k ==> !m(#[trigger] entries[j].image@)
}

/// The result of a search of `entries` for the first image satisfying `m`.
pub open spec fn found_first(entries: Seq<ProcessEntry>, m: spec_fn(Seq<char>) -> bool, r: Option<u32>) -> bool {
    match r {
        Some(pid) => exists|k: int| is_first_match(entries, m, k) && entries[k].process_id == pid,
        None => forall|j: int| 0 <= j < entries.len() ==> !m(#[trigger] entries[j].image@),
    }
}

/// The first process in the snapshot whose image path is `exe_path`,
/// compared without regard to case.
pub fn find_process_by_path(entries: &Vec<ProcessEntry>, exe_path: &str) -> (r: Option<u32>)
    ensures
        found_first(entries@, |image: Seq<char>| path_matches(image, exe_path@), r),
{
    let ghost m = |image: Seq<char>| path_matches(image, exe_path@);
    let target = lowercase(exe_path);
    let mut i: usize = 0;
    while i < entries.len()
        invariant
            i <= entries@.len(),
            target@ == lower_of(exe_path@),
            m == (|image: Seq<char>| path_matches(image, exe_path@)),
            forall|j: int| 0 <= j < i ==> !m(#[trigger] entries@[j].image@),
        decreases entries@.len() - i,
    {
        if lowercase(entries[i].image.as_str()) == target {
            assert(is_first_match(entries@, m, i as int));
            return Some(entries[i].process_id);
        }
        i = i + 1;
    }
    None
}

/// The first process in the snapshot whose image is the file `name` or a
/// path ending in it, compared without regard to case.
pub fn find_process_by_name(entries: &Vec<ProcessEntry>, process_name: &str) -> (r: Option<u32>)
    ensures
        found_first(entries@, |image: Seq<char>| name_matches(image, process_name@), r),
{
    let ghost m = |image: Seq<char>| name_matches(image, process_name@);
    proof {
        reveal_strlit("\\");
    }
    let target = lowercase(process_name);
    let suffix = "\\".to_string().concat(target.as_str());
    assert(suffix@ =~= seq!['\\'] + lower_of(process_name@));
    let mut i: usize = 0;
    while i < entries.len()
        invariant
            i <= entries@.len(),
            target@ == lower_of(process_name@),
            suffix@ == seq!['\\'] + lower_of(process_name@),
            m == (|image: Seq<char>| name_matches(image, process_name@)),
            forall|j: int| 0 <= j < i ==> !m(#[trigger] entries@[j].image@),
        decreases entries@.len() - i,
    {
        let image = lowercase(entries[i].image.as_str());
        if image == target || text_ends_with(image.as_str(), suffix.as_str()) {
            assert(is_first_match(entries@, m, i as int));
            return Some(entries[i].process_id);
        }
        i = i + 1;
    }
    None
}

} // verus!
