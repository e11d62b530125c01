//! Where the sources of a baseline lie.

use vstd::prelude::*;

use crate::text::{opt_str, opt_text, same_str};

verus! {

/// A path, and whether it exists.
#[derive(Debug)]
pub struct Candidate {
    /// The path.
    pub path: String,
    /// Whether it exists.
    pub exists: bool,
}

/// The first path that exists.
pub open spec fn first_present(candidates: Seq<Candidate>) -> Option<Seq<char>>
    decreases candidates.len(),
{
    if candidates.len() == 0 {
        None
    } else if candidates[0].exists {
        Some(candidates[0].path@)
    } else {
        first_present(candidates.drop_first())
    }
}

/// The first path that exists.
pub fn existing_path(candidates: &[Candidate]) -> (r: Option<String>)
    ensures
        opt_text(r) == first_present(candidates@),
{
    assert(candidates@.skip(0) =~= candidates@);
    for i in 0..candidates.len()
        invariant
            first_present(candidates@) == first_present(candidates@.skip(i as int)),
    {
        assert(candidates@.skip(i as int)[0] == candidates@[i as int]);
        if candidates[i].exists {
            return Some(candidates[i].path.clone());
        }
        assert(candidates@.skip(i as int).drop_first() =~= candidates@.skip(i + 1));
    }
    None
}

/// The PX4 source to use: the one asked for; for VOXL its own, where it exists; the one that the
/// environment names; the usual ones, where they exist.
pub open spec fn px4_source_of(
    asked: Option<Seq<char>>,
    voxl: bool,
    voxl_places: Seq<Candidate>,
    environment: Option<Seq<char>>,
    places: Seq<Candidate>,
) -> Option<Seq<char>> {
    if asked is Some {
        asked
    } else if voxl && first_present(voxl_places) is Some {
        first_present(voxl_places)
    } else if environment is Some {
        environment
    } else {
        first_present(places)
    }
}

fn own(text: Option<&str>) -> (r: Option<String>)
    ensures
        opt_text(r) == opt_str(text),
{
    match text {
        Some(t) => Some(String::from_str(t)),
        None => None,
    }
}

/// The PX4 source to use, if there is one.
pub fn resolve_px4_source(
    asked: Option<&str>,
    voxl: bool,
    voxl_places: &[Candidate],
    environment: Option<&str>,
    places: &[Candidate],
) -> (r: Option<String>)
    ensures
        opt_text(r) == px4_source_of(
            opt_str(asked),
            voxl,
            voxl_places@,
            opt_str(environment),
            places@,
        ),
{
    if asked.is_some() {
        return own(asked);
    }
    if voxl {
        if let Some(path) = existing_path(voxl_places) {
            return Some(path);
        }
    }
    if environment.is_some() {
        return own(environment);
    }
    existing_path(places)
}

/// The VOXL parameter source to use: the one asked for, else the first usual one that exists.
pub open spec fn params_source_of(asked: Option<Seq<char>>, places: Seq<Candidate>) -> Option<
    Seq<char>,
> {
    if asked is Some {
        asked
    } else {
        first_present(places)
    }
}

/// The VOXL parameter source to use, if there is one.
pub fn resolve_voxl_params_source(asked: Option<&str>, places: &[Candidate]) -> (r: Option<String>)
    ensures
        opt_text(r) == params_source_of(opt_str(asked), places@),
{
    if asked.is_some() {
        return own(asked);
    }
    existing_path(places)
}

/// Why a directory does not serve as a source.
#[derive(Debug)]
pub struct NotASource {
    /// What is wrong, in words.
    pub message: String,
}

/// The outcome of a look at a source.
pub open spec fn source_view(r: Result<String, NotASource>) -> Result<Seq<char>, Seq<char>> {
    match r {
        Ok(path) => Ok(path@),
        Err(e) => Err(e.message@),
    }
}

/// Accepts a PX4 source that has its parts: `has_src` says whether it holds `src`, and
/// `has_airframes` whether it holds the directory of airframes.
pub fn validate_px4_source(path: &str, has_src: bool, has_airframes: bool) -> (r: Result<
    String,
    NotASource,
>)
    ensures
        source_view(r) == (if has_src && has_airframes {
            Ok::<Seq<char>, Seq<char>>(path@)
        } else {
            Err(path@ + " does not look like a PX4-Autopilot checkout"@)
        }),
{
    if has_src && has_airframes {
        Ok(String::from_str(path))
    } else {
        let mut message = String::from_str(path);
        message.append(" does not look like a PX4-Autopilot checkout");
        Err(NotASource { message })
    }
}

/// Accepts a VOXL parameter source that has its parts: `has_params` says whether it holds
/// `params`.
pub fn validate_voxl_params_source(path: &str, has_params: bool) -> (r: Result<String, NotASource>)
    ensures
        source_view(r) == (if has_params {
            Ok::<Seq<char>, Seq<char>>(path@)
        } else {
            Err(path@ + " does not look like a voxl-px4-params checkout"@)
        }),
{
    if has_params {
        Ok(String::from_str(path))
    } else {
        let mut message = String::from_str(path);
        message.append(" does not look like a voxl-px4-params checkout");
        Err(NotASource { message })
    }
}

/// The VOXL checkout around a PX4 source: its parent, where it is the firmware of a checkout; else
/// the usual one, where it is a checkout.
pub open spec fn wrapper_source_of(
    name: Option<Seq<char>>,
    parent: Option<Candidate>,
    usual: Candidate,
) -> Option<Seq<char>> {
    if name == Some("px4-firmware"@) && parent is None {
        None
    } else if name == Some("px4-firmware"@) && (parent->0).exists {
        Some((parent->0).path@)
    } else if usual.exists {
        Some(usual.path@)
    } else {
        None
    }
}

/// The VOXL checkout around a PX4 source, if there is one. `file_name` is the name of the source,
/// `parent` the directory that holds it, and `usual` where the checkout usually lies; a directory
/// is said to exist if it is a checkout.
pub fn infer_voxl_wrapper_source(
    file_name: Option<&str>,
    parent: Option<Candidate>,
    usual: Candidate,
) -> (r: Option<String>)
    ensures
        opt_text(r) == wrapper_source_of(opt_str(file_name), parent, usual),
{
    let firmware = match file_name {
        Some(name) => same_str(name, "px4-firmware"),
        None => false,
    };
    if firmware {
        match parent {
            None => {
                return None;
            },
            Some(p) => {
                if p.exists {
                    return Some(p.path);
                }
            },
        }
    }
    if usual.exists {
        Some(usual.path)
    } else {
        None
    }
}

/// The line on the PX4 source.
pub open spec fn source_line(path: Seq<char>, git: Option<Seq<char>>) -> Seq<char> {
    "PX4 baseline source: "@ + path + " git="@ + (match git {
        Some(g) => g,
        None => "unknown"@,
    })
}

/// The line on the PX4 source: its path, and its commit if it is known.
pub fn px4_source_status_line(path: &str, git: Option<&str>) -> (r: String)
    ensures
        r@ == source_line(path@, opt_str(git)),
{
    let mut out = String::from_str("PX4 baseline source: ");
    out.append(path);
    out.append(" git=");
    out.append(
        match git {
            Some(g) => g,
            None => "unknown",
        },
    );
    out
}

} // verus!
