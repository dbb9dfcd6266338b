//! Paths, as the standard library joins them on Unix.
use vstd::prelude::*;
use vstd::string::*;

verus! {

/// A path is absolute when it starts at the root.
pub open spec fn is_absolute(p: Seq<char>) -> bool {
    p.len() > 0 && p[0] == '/'
}

/// `base` joined with `part` (`Path::join`): an absolute `part` replaces `base`;
/// otherwise a separator goes between them unless `base` is empty or already ends
/// with one.
pub open spec fn path_join(base: Seq<char>, part: Seq<char>) -> Seq<char> {
    if is_absolute(part) {
        part
    } else if base.len() > 0 && base.last() != '/' {
        base.push('/') + part
    } else {
        base + part
    }
}

/// Joins two paths.
pub fn join_path(base: &str, part: &str) -> (r: String)
    ensures
        r@ == path_join(base@, part@),
{
    let pc = crate::text::chars_of(part);
    if pc.len() > 0 && pc[0] == '/' {
        return String::from_str(part);
    }
    let bc = crate::text::chars_of(base);
    let mut r = String::from_str(base);
    if bc.len() > 0 && bc[bc.len() - 1] != '/' {
        crate::text::push_char(&mut r, '/');
    }
    r.append(part);
    r
}

/// The folder that downloads go to unless the settings say otherwise: `Kemono` in
/// the user's download folder, else in `Downloads` of the home folder, else in
/// `./downloads`.
pub open spec fn default_download_root(
    download_dir: Option<Seq<char>>,
    home_dir: Option<Seq<char>>,
) -> Seq<char> {
    let base = match download_dir {
        Some(d) => d,
        None => match home_dir {
            Some(h) => path_join(h, "Downloads"@),
            None => "./downloads"@,
        },
    };
    path_join(base, "Kemono"@)
}

} // verus!
