use crate::text::{lemma_strings_push, spec_strings};
use vstd::prelude::*;

verus! {

/// What `Path::strip_prefix` gives for a path and a base, both as text: the
/// rest of the path below the base, or nothing where the path is not below
/// it. How a path is split into its parts is the platform's matter.
pub uninterp spec fn spec_strip_prefix(path: Seq<char>, base: Seq<char>) -> Option<Seq<char>>;

/// What `PathBuf::push` makes of a base and a path pushed onto it, both as
/// text.
pub uninterp spec fn spec_push(base: Seq<char>, rest: Seq<char>) -> Seq<char>;

/// What a text holds, if there is one.
pub open spec fn spec_text(text: Option<String>) -> Option<Seq<char>> {
    match text {
        Some(t) => Some(t@),
        None => None,
    }
}

/// Calls `Path::strip_prefix` on the two paths. Nothing is claimed of the
/// result but that it depends on the two texts alone, which is what the
/// name `spec_strip_prefix` stands for.
#[verifier::external_body]
fn strip_prefix(path: &str, base: &str) -> (rest: Option<String>)
    ensures
        spec_text(rest) == spec_strip_prefix(path@, base@),
{
    match std::path::Path::new(path).strip_prefix(base) {
        Ok(rest) => Some(rest.to_string_lossy().into_owned()),
        Err(_) => None,
    }
}

/// Calls `PathBuf::push` on a buffer that holds `base`. Nothing is claimed
/// of the result but that it depends on the two texts alone, which is what
/// the name `spec_push` stands for.
#[verifier::external_body]
fn push(base: &str, rest: &str) -> (joined: String)
    ensures
        joined@ == spec_push(base@, rest@),
{
    let mut buffer = std::path::PathBuf::from(base);
    buffer.push(rest);
    buffer.to_string_lossy().into_owned()
}

/// The name to show for a path whose part below the home directory is
/// `below`, if it lies there: that part pushed onto `~`, else the path
/// itself.
pub open spec fn spec_shown(path: Seq<char>, below: Option<Seq<char>>) -> Seq<char> {
    match below {
        Some(rest) => spec_push("~"@, rest),
        None => path,
    }
}

/// The name to show for a path: below the home directory the path is
/// written from `~` on; elsewhere, and where no home directory is known,
/// it is written whole.
pub open spec fn spec_path_to_string(path: Seq<char>, home: Option<Seq<char>>) -> Seq<char> {
    match home {
        Some(base) => spec_shown(path, spec_strip_prefix(path, base)),
        None => path,
    }
}

/// Makes the name to show for a path from its part below the home
/// directory, if it has one.
pub fn shown(path: &str, below: Option<String>) -> (name: String)
    ensures
        name@ == spec_shown(path@, spec_text(below)),
{
    match below {
        Some(rest) => push("~", rest.as_str()),
        None => String::from_str(path),
    }
}

/// Makes the name to show for a path, given the home directory if one is
/// known.
pub fn path_to_string(path: &str, home: Option<&str>) -> (name: String)
    ensures
        name@ == spec_path_to_string(path@, spec_home(home)),
{
    match home {
        Some(base) => shown(path, strip_prefix(path, base)),
        None => String::from_str(path),
    }
}


/// What a home directory holds, if one is known.
pub open spec fn spec_home(home: Option<&str>) -> Option<Seq<char>> {
    match home {
        Some(base) => Some(base@),
        None => None,
    }
}

/// The names to show for a list of paths, one for each, in their order.
pub open spec fn spec_labels(paths: Seq<Seq<char>>, home: Option<Seq<char>>) -> Seq<Seq<char>> {
    Seq::new(paths.len(), |i: int| spec_path_to_string(paths[i], home))
}

/// Makes the names to show for a list of paths.
pub fn labels(paths: &Vec<String>, home: Option<&str>) -> (names: Vec<String>)
    ensures
        names@.len() == paths@.len(),
        spec_strings(names@) == spec_labels(spec_strings(paths@), spec_home(home)),
{
    let ghost all = spec_labels(spec_strings(paths@), spec_home(home));
    let mut names: Vec<String> = Vec::new();
    let mut i: usize = 0;
    assert(spec_strings(names@) =~= all.take(0));
    while i < paths.len()
        invariant
            i <= paths@.len(),
            names@.len() == i,
            all == spec_labels(spec_strings(paths@), spec_home(home)),
            spec_strings(names@) == all.take(i as int),
        decreases paths@.len() - i,
    {
        let name = path_to_string(paths[i].as_str(), home);
        proof {
            lemma_strings_push(names@, name);
            assert(spec_strings(paths@)[i as int] == paths@[i as int]@);
            assert(all.take(i as int).push(name@) =~= all.take(i + 1));
        }
        names.push(name);
        i += 1;
    }
    assert(all.take(i as int) =~= all);
    names
}

} // verus!
