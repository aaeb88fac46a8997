use vstd::prelude::*;
use crate::text::{chars_of, find_at, spec_find, spec_trim, string_from_chars, trim_chars};

verus! {

/// The text holds the phrase somewhere.
pub open spec fn text_contains(s: Seq<char>, phrase: Seq<char>) -> bool {
    spec_find(s, phrase, 0) is Some
}

/// What a finished git command means to the user. A zero exit whose
/// output nonetheless says nothing was done ("nothing to commit", "no
/// changes added") counts as a failure; a real failure reports the
/// trimmed stderr, or the trimmed stdout when stderr is empty; and
/// nothing here is ever fatal — the result only becomes a message.
pub open spec fn spec_git_outcome(
    success: bool,
    stdout: Seq<char>,
    stderr: Seq<char>,
    success_msg: Seq<char>,
    error_prefix: Seq<char>,
) -> Result<Seq<char>, Seq<char>> {
    if success {
        if text_contains(stdout + stderr, "nothing to commit"@) || text_contains(
            stdout + stderr,
            "no changes added"@,
        ) {
            Result::Err(error_prefix + ": "@ + spec_trim(stdout + stderr))
        } else {
            Result::Ok(success_msg)
        }
    } else {
        Result::Err(
            error_prefix + ": "@ + (if spec_trim(stderr).len() == 0 {
                spec_trim(stdout)
            } else {
                spec_trim(stderr)
            }),
        )
    }
}

/// Classifies what a git command printed and how it exited.
pub fn git_outcome(
    success: bool,
    stdout: &str,
    stderr: &str,
    success_msg: &str,
    error_prefix: &str,
) -> (r: Result<String, String>)
    ensures
        match r {
            Result::Ok(m) => spec_git_outcome(
                success,
                stdout@,
                stderr@,
                success_msg@,
                error_prefix@,
            ) == Result::<Seq<char>, Seq<char>>::Ok(m@),
            Result::Err(m) => spec_git_outcome(
                success,
                stdout@,
                stderr@,
                success_msg@,
                error_prefix@,
            ) == Result::<Seq<char>, Seq<char>>::Err(m@),
        },
{
    let out = chars_of(stdout);
    let err = chars_of(stderr);
    if success {
        let mut combined = out;
        let mut tail = err;
        combined.append(&mut tail);
        let phrase_a = chars_of("nothing to commit");
        let phrase_b = chars_of("no changes added");
        let hit = match find_at(&combined, &phrase_a, 0) {
            Option::Some(_) => true,
            Option::None => match find_at(&combined, &phrase_b, 0) {
                Option::Some(_) => true,
                Option::None => false,
            },
        };
        if hit {
            let mut m = chars_of(error_prefix);
            let mut sep = chars_of(": ");
            m.append(&mut sep);
            let mut body = trim_chars(&combined);
            m.append(&mut body);
            Result::Err(string_from_chars(&m))
        } else {
            Result::Ok(success_msg.to_owned())
        }
    } else {
        let trimmed_err = trim_chars(&err);
        let mut m = chars_of(error_prefix);
        let mut sep = chars_of(": ");
        m.append(&mut sep);
        let mut body = if trimmed_err.len() == 0 {
            trim_chars(&out)
        } else {
            trimmed_err
        };
        m.append(&mut body);
        Result::Err(string_from_chars(&m))
    }
}

/// The message after adding a remote and pushing: the add failing wins,
/// then the push result.
pub open spec fn spec_add_remote_push_message(
    add_ok: bool,
    add_err: Seq<char>,
    push_ok: bool,
    push_err: Seq<char>,
) -> (Seq<char>, bool) {
    if !add_ok {
        ("Failed: "@ + spec_trim(add_err), true)
    } else if push_ok {
        ("Remote added & pushed!"@, false)
    } else {
        ("Push failed: "@ + spec_trim(push_err), true)
    }
}

/// Builds the user message for the add-remote-then-push flow.
pub fn add_remote_push_message(add_ok: bool, add_err: &str, push_ok: bool, push_err: &str) -> (r: (
    String,
    bool,
))
    ensures
        r.0@ == spec_add_remote_push_message(add_ok, add_err@, push_ok, push_err@).0,
        r.1 == spec_add_remote_push_message(add_ok, add_err@, push_ok, push_err@).1,
{
    if !add_ok {
        let mut m = chars_of("Failed: ");
        let mut body = trim_chars(&chars_of(add_err));
        m.append(&mut body);
        (string_from_chars(&m), true)
    } else if push_ok {
        ("Remote added & pushed!".to_owned(), false)
    } else {
        let mut m = chars_of("Push failed: ");
        let mut body = trim_chars(&chars_of(push_err));
        m.append(&mut body);
        (string_from_chars(&m), true)
    }
}

/// The single-slot exclusivity flag for background git work: at most one
/// long-latency operation is in flight at a time, and this names its kind.
#[derive(Clone, PartialEq, Eq, Structural, Debug)]
pub enum Processing {
    Idle,
    Pushing,
    Pulling,
    Committing,
    PushingTags,
}

impl Processing {
    /// The overlay label shown while this kind of operation runs.
    pub open spec fn spec_message(self) -> Seq<char> {
        match self {
            Processing::Idle => ""@,
            Processing::Pushing => "Pushing..."@,
            Processing::Pulling => "Pulling..."@,
            Processing::Committing => "Committing..."@,
            Processing::PushingTags => "Pushing tags..."@,
        }
    }

    pub fn message(&self) -> (r: &'static str)
        ensures
            r@ == self.spec_message(),
    {
        match self {
            Processing::Idle => "",
            Processing::Pushing => "Pushing...",
            Processing::Pulling => "Pulling...",
            Processing::Committing => "Committing...",
            Processing::PushingTags => "Pushing tags...",
        }
    }

    /// True exactly while some background operation is in flight.
    pub fn is_active(&self) -> (r: bool)
        ensures
            r == (self != Processing::Idle),
    {
        *self != Processing::Idle
    }
}

} // verus!
