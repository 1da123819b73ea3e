//! Where compiled kernels are kept.

use vstd::prelude::*;

verus! {

/// A path with one more part. There is one separator between the two, and none behind an
/// empty path.
pub open spec fn joined(base: Seq<char>, part: Seq<char>) -> Seq<char> {
    if base.len() == 0 {
        part
    } else if base.last() == '/' {
        base + part
    } else {
        base.push('/') + part
    }
}

/// Appends a relative part to a path.
pub fn join(base: &mut String, part: &str)
    ensures
        final(base)@ == joined(old(base)@, part@),
        old(base)@.len() == 0 ==> final(base)@ == part@,
        old(base)@.len() > 0 && old(base)@.last() == '/' ==> final(base)@ == old(base)@ + part@,
        old(base)@.len() > 0 && old(base)@.last() != '/' ==> final(base)@ == old(base)@ + seq!['/']
            + part@,
{
    let n: usize = base.as_str().unicode_len();
    if n > 0 && base.as_str().get_char(n - 1) != '/' {
        base.append("/");
        proof {
            reveal_strlit("/");
            assert("/"@ =~= seq!['/']);
            assert(base@ =~= old(base)@.push('/'));
        }
    }
    base.append(part);
    assert(base@ =~= joined(old(base)@, part@));
    assert(old(base)@.push('/') =~= old(base)@ + seq!['/']);
}

/// The directory for compiled kernels.
pub open spec fn cache_path(xdg: Option<&str>, home: Option<&str>) -> Seq<char> {
    let root = match xdg {
        Some(x) => x@,
        None => match home {
            Some(h) => joined(h@, ".cache"@),
            None => ".cache"@,
        },
    };
    joined(joined(root, "larql"@), "cudarc"@)
}

/// The directory for compiled kernels: under the user's cache directory where that is
/// set, else under `.cache` in the home directory, else under `.cache`.
pub fn cache_dir(xdg_cache_home: Option<&str>, home: Option<&str>) -> (dir: String)
    ensures
        dir@ == cache_path(xdg_cache_home, home),
        xdg_cache_home matches Some(x) ==> dir@ == joined(joined(x@, "larql"@), "cudarc"@),
        xdg_cache_home is None && home is Some ==> dir@ == joined(
            joined(joined(home->0@, ".cache"@), "larql"@),
            "cudarc"@,
        ),
        xdg_cache_home is None && home is None ==> dir@ == joined(
            joined(".cache"@, "larql"@),
            "cudarc"@,
        ),
{
    let mut dir: String = match xdg_cache_home {
        Some(x) => x.to_owned(),
        None => match home {
            Some(h) => {
                let mut d: String = h.to_owned();
                join(&mut d, ".cache");
                d
            },
            None => ".cache".to_owned(),
        },
    };
    join(&mut dir, "larql");
    join(&mut dir, "cudarc");
    dir
}

/// The text of the marker that says which version filled the directory.
pub fn version_marker(version: &str) -> (s: String)
    ensures
        s@ == "larql-compute="@ + version@ + "\ncudarc=0.19\nformat=v1\n"@,
{
    let mut s: String = "larql-compute=".to_owned();
    s.append(version);
    s.append("\ncudarc=0.19\nformat=v1\n");
    s
}

/// A joined path begins with the path and ends with the part, and has one separator between
/// them: an added one, or the one that the path ended with. An empty path adds nothing.
pub proof fn law_join(base: Seq<char>, part: Seq<char>)
    ensures
        ({
            let p = joined(base, part);
            &&& p.take(base.len() as int) =~= base
            &&& p.skip(p.len() - part.len()) =~= part
            &&& base.len() > 0 ==> p[p.len() - part.len() - 1] == '/'
            &&& base.len() == 0 ==> p == part
            &&& base.len() > 0 && base.last() == '/' ==> p.len() == base.len() + part.len()
            &&& base.len() > 0 && base.last() != '/' ==> p.len() == base.len() + 1 + part.len()
        }),
{
}

/// The directory lies under the user's cache directory where that is set, else under `.cache` in
/// the home directory, else under `.cache`, and its last two parts are always the same.
pub proof fn law_cache_dir(xdg: &str, home: &str)
    ensures
        cache_path(Some(xdg), Some(home)) == cache_path(Some(xdg), None),
        cache_path(Some(xdg), None) == joined(joined(xdg@, "larql"@), "cudarc"@),
        cache_path(None, Some(home)) == joined(
            joined(joined(home@, ".cache"@), "larql"@),
            "cudarc"@,
        ),
        cache_path(None, None) == joined(joined(".cache"@, "larql"@), "cudarc"@),
{
}

} // verus!
