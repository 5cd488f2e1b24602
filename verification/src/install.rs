//! Installing the program as a hard link in the user's `bin` directory.
use crate::text::push_char;
use vstd::prelude::*;

verus! {

/// What an installation did.
#[derive(Debug, Clone, PartialEq, Eq)]
pub struct InstallOutcome {
    /// The link created.
    pub link_path: String,
    /// The program the link points to.
    pub target_path: String,
    /// Advice to add the directory to `PATH`, when it is not on it.
    pub path_notice: Option<String>,
}

/// The pieces of `s` between the separators `sep`, as `str::split` gives
/// them: empty pieces included, one piece for an empty text.
pub open spec fn split_on(s: Seq<char>, sep: char) -> Seq<Seq<char>>
    decreases s.len(),
{
    if s.len() == 0 {
        seq![Seq::empty()]
    } else {
        let prev = split_on(s.drop_last(), sep);
        if s.last() == sep {
            prev.push(Seq::empty())
        } else {
            prev.update(prev.len() - 1, prev.last().push(s.last()))
        }
    }
}

/// The pieces of a text are never none.
pub proof fn lemma_split_on_nonempty(s: Seq<char>, sep: char)
    ensures
        split_on(s, sep).len() >= 1,
    decreases s.len(),
{
    if s.len() > 0 {
        lemma_split_on_nonempty(s.drop_last(), sep);
    }
}

/// Whether `std::path::Path` holds two paths equal (component by
/// component).
pub uninterp spec fn same_path(a: Seq<char>, b: Seq<char>) -> bool;

/// Compares two paths with `std::path::Path`'s `==`. Its result is named
/// by `same_path`: it depends on the two texts alone.
#[verifier::external_body]
fn path_eq(a: &str, b: &str) -> (r: bool)
    ensures
        r == same_path(a@, b@),
{
    std::path::Path::new(a) == std::path::Path::new(b)
}

/// Whether a non-empty entry of the search path `path_env` is the
/// directory `dir`.
pub open spec fn on_search_path(path_env: Seq<char>, dir: Seq<char>) -> bool {
    exists|i: int|
        0 <= i < split_on(path_env, ':').len() && (#[trigger] split_on(path_env, ':')[i]).len() > 0
            && same_path(split_on(path_env, ':')[i], dir)
}

/// The advice given when the directory is not on the search path.
pub open spec fn notice_text(dir: Seq<char>) -> Seq<char> {
    NOTICE_START@ + dir + NOTICE_MIDDLE@ + dir + NOTICE_END@
}

pub const NOTICE_START: &'static str = "NOTE: Add ";
pub const NOTICE_MIDDLE: &'static str = " to your PATH:\n  export PATH=\"";
pub const NOTICE_END: &'static str = ":$PATH\"\n  # Add to ~/.bashrc or ~/.zshrc to persist";

/// The entries of a search path.
fn split_path_entries(s: &str) -> (r: Vec<Vec<char>>)
    ensures
        r@.len() == split_on(s@, ':').len(),
        forall|i: int| 0 <= i < r@.len() ==> (#[trigger] r@[i])@ == split_on(s@, ':')[i],
{
    let chars = crate::text::to_chars(s);
    let mut parts: Vec<Vec<char>> = Vec::new();
    parts.push(Vec::new());
    let mut i: usize = 0;
    proof {
        assert(chars@.take(0) =~= Seq::<char>::empty());
    }
    while i < chars.len()
        invariant
            0 <= i <= chars.len(),
            chars@ == s@,
            parts@.len() == split_on(chars@.take(i as int), ':').len(),
            parts@.len() >= 1,
            forall|k: int| 0 <= k < parts@.len() ==> (#[trigger] parts@[k])@ == split_on(chars@.take(i as int), ':')[k],
        decreases chars.len() - i,
    {
        proof {
            assert(chars@.take(i + 1).drop_last() =~= chars@.take(i as int));
            assert(chars@.take(i + 1).last() == chars@[i as int]);
        }
        let c = chars[i];
        if c == ':' {
            parts.push(Vec::new());
        } else {
            let last = parts.len() - 1;
            let mut piece = parts.remove(last);
            piece.push(c);
            parts.push(piece);
        }
        i = i + 1;
    }
    proof {
        assert(chars@.take(chars.len() as int) =~= s@);
    }
    parts
}

/// The text made of the characters, in order.
fn chars_to_string(v: &Vec<char>) -> (r: String)
    ensures
        r@ == v@,
{
    let mut s = String::new();
    let mut i: usize = 0;
    while i < v.len()
        invariant
            0 <= i <= v.len(),
            s@ == v@.take(i as int),
        decreases v.len() - i,
    {
        push_char(&mut s, v[i]);
        proof {
            assert(v@.take(i + 1) =~= v@.take(i as int).push(v@[i as int]));
        }
        i = i + 1;
    }
    proof {
        assert(v@.take(v.len() as int) =~= v@);
    }
    s
}

/// The advice to add `user_bin` to the search path, when no non-empty
/// entry of `path_env` is that directory.
pub fn path_notice(path_env: &str, user_bin: &str) -> (r: Option<String>)
    ensures
        match r {
            Some(n) => !on_search_path(path_env@, user_bin@) && n@ == notice_text(user_bin@),
            None => on_search_path(path_env@, user_bin@),
        },
{
    let parts = split_path_entries(path_env);
    let mut i: usize = 0;
    while i < parts.len()
        invariant
            0 <= i <= parts.len(),
            parts@.len() == split_on(path_env@, ':').len(),
            forall|k: int| 0 <= k < parts@.len() ==> (#[trigger] parts@[k])@ == split_on(path_env@, ':')[k],
            forall|k: int|
                0 <= k < i ==> !((#[trigger] split_on(path_env@, ':')[k]).len() > 0 && same_path(
                    split_on(path_env@, ':')[k],
                    user_bin@,
                )),
        decreases parts.len() - i,
    {
        if parts[i].len() > 0 {
            let entry = chars_to_string(&parts[i]);
            if path_eq(entry.as_str(), user_bin) {
                proof {
                    assert(split_on(path_env@, ':')[i as int] == parts@[i as int]@);
                }
                return None;
            }
        }
        proof {
            assert(split_on(path_env@, ':')[i as int] == parts@[i as int]@);
        }
        i = i + 1;
    }
    let mut n = NOTICE_START.to_owned();
    n.append(user_bin);
    n.append(NOTICE_MIDDLE);
    n.append(user_bin);
    n.append(NOTICE_END);
    Some(n)
}

} // verus!
