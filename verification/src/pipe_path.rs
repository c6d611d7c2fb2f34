use vstd::prelude::*;

verus! {

/// How many sequentially numbered pipe names are probed during connection
/// discovery. The host binds to one index non-deterministically per session,
/// so every candidate in `0..CANDIDATE_COUNT` must be tried before giving up.
pub const CANDIDATE_COUNT: usize = 10;

/// The decimal digit character naming candidate `index`. The probe range
/// stays below ten, so a single digit always suffices.
pub open spec fn digit_chars(index: int) -> Seq<char> {
    if index == 0 {
        "0"@
    } else if index == 1 {
        "1"@
    } else if index == 2 {
        "2"@
    } else if index == 3 {
        "3"@
    } else if index == 4 {
        "4"@
    } else if index == 5 {
        "5"@
    } else if index == 6 {
        "6"@
    } else if index == 7 {
        "7"@
    } else if index == 8 {
        "8"@
    } else {
        "9"@
    }
}

/// The full pipe path for candidate `index`: the well-known namespace root
/// and fixed prefix, then the candidate's decimal index. This exact shape is
/// what the host listens under, so it must be reproduced verbatim.
pub open spec fn candidate_path_chars(index: int) -> Seq<char> {
    "\\\\?\\pipe\\discord-ipc-"@ + digit_chars(index)
}

/// Builds the pipe path probed for candidate `index`.
pub fn candidate_path(index: usize) -> (r: String)
    requires
        index < CANDIDATE_COUNT,
    ensures
        r@ == candidate_path_chars(index as int),
{
    let mut path = String::from_str("\\\\?\\pipe\\discord-ipc-");
    let digit: &str = if index == 0 {
        "0"
    } else if index == 1 {
        "1"
    } else if index == 2 {
        "2"
    } else if index == 3 {
        "3"
    } else if index == 4 {
        "4"
    } else if index == 5 {
        "5"
    } else if index == 6 {
        "6"
    } else if index == 7 {
        "7"
    } else if index == 8 {
        "8"
    } else {
        "9"
    };
    assert(digit@ == digit_chars(index as int));
    path.append(digit);
    path
}

} // verus!
