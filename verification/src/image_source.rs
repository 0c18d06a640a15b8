//! Where a container's executable comes from.

use vstd::prelude::*;
use crate::scan::{self, lists, split, starts_with, strip_prefix};
use crate::text::{self, cat3, same};

verus! {

/// Under this directory every path is content-addressed.
pub const STORE_ROOT: &'static str = "/nix/store/";

/// What a reference to a closure begins with.
pub const NIX_SCHEME: &'static str = "nix:";

/// Why a reference cannot be understood.
#[derive(Clone, Debug, PartialEq, Eq)]
pub enum ImageSourceError {
    /// It is empty.
    Empty,
    /// It names a path outside the store.
    NotAStorePath { path: String },
    /// Its path has a `..` in it, and could leave the store.
    TraversesUpward { path: String },
    /// It names the root of the store and nothing in it.
    NoPackage,
}

/// An error in words.
pub open spec fn image_error_text(e: ImageSourceError) -> Seq<char> {
    match e {
        ImageSourceError::Empty => "image reference is empty"@,
        ImageSourceError::NotAStorePath { path } => "nix:"@ + path@
            + " is not under /nix/store/; a closure reference must name a content-addressed store path"@,
        ImageSourceError::TraversesUpward { path } => "nix:"@ + path@
            + " contains `..` and may resolve outside the store"@,
        ImageSourceError::NoPackage => "nix:/nix/store/ names no package"@,
    }
}

impl ImageSourceError {
    /// The error in words.
    pub fn to_text(&self) -> (r: String)
        ensures
            r@ == image_error_text(*self),
    {
        match self {
            ImageSourceError::Empty => "image reference is empty".to_owned(),
            ImageSourceError::NotAStorePath { path } => cat3(
                "nix:",
                path.as_str(),
                " is not under /nix/store/; a closure reference must name a content-addressed store path",
            ),
            ImageSourceError::TraversesUpward { path } => cat3(
                "nix:",
                path.as_str(),
                " contains `..` and may resolve outside the store",
            ),
            ImageSourceError::NoPackage => "nix:/nix/store/ names no package".to_owned(),
        }
    }
}

/// Where a container's executable comes from.
#[derive(Clone, Debug, PartialEq, Eq)]
pub enum ImageSource {
    /// A closure in the store, at this path, which runs as a process of the host.
    NixClosure(String),
    /// An image that needs a container runtime.
    Oci(String),
}

/// Whether a path has `..` for one of its parts.
pub open spec fn climbs(path: Seq<char>) -> bool {
    scan::pieces(path, '/').contains(".."@)
}

/// Whether nothing is named behind the root of the store, which takes the first three parts of a
/// path: every part there is empty or a single dot.
pub open spec fn names_root(path: Seq<char>) -> bool {
    forall|i: int|
        3 <= i < scan::pieces(path, '/').len() ==> (#[trigger] scan::pieces(path, '/')[i]).len()
            == 0 || scan::pieces(path, '/')[i] == "."@
}

/// Whether a path lies in the store: below its root, without a way up.
pub open spec fn in_store(path: Seq<char>) -> bool {
    scan::begins(path, "/nix/store/"@) && !climbs(path) && !names_root(path)
}

/// Whether nothing is named behind the root of the store by the parts of a path.
fn only_root(parts: &[String]) -> (r: bool)
    ensures
        r == forall|i: int|
            3 <= i < parts@.len() ==> (#[trigger] text::texts(parts@)[i]).len() == 0 || text::texts(
                parts@,
            )[i] == "."@,
{
    let mut i: usize = 3;
    while i < parts.len()
        invariant
            3 <= i,
            forall|k: int|
                3 <= k < i && k < parts@.len() ==> (#[trigger] text::texts(parts@)[k]).len() == 0
                    || text::texts(parts@)[k] == "."@,
        decreases parts@.len() - i,
    {
        let part = parts[i].as_str();
        assert(text::texts(parts@)[i as int] == part@);
        if !part.is_empty() && !same(part, ".") {
            return false;
        }
        i += 1;
    }
    true
}

impl ImageSource {
    /// The source that a reference names. What is no `nix:` reference is an image.
    pub fn parse(image: &str) -> (r: Result<ImageSource, ImageSourceError>)
        ensures
            if image@.len() == 0 {
                r matches Err(ImageSourceError::Empty)
            } else if !scan::begins(image@, "nix:"@) {
                r matches Ok(ImageSource::Oci(s)) && s@ == image@
            } else {
                let path = image@.skip("nix:"@.len() as int);
                if !scan::begins(path, "/nix/store/"@) {
                    r matches Err(ImageSourceError::NotAStorePath { path: p }) && p@ == path
                } else if climbs(path) {
                    r matches Err(ImageSourceError::TraversesUpward { path: p }) && p@ == path
                } else if names_root(path) {
                    r matches Err(ImageSourceError::NoPackage)
                } else {
                    r matches Ok(ImageSource::NixClosure(p)) && p@ == path && in_store(path)
                }
            },
    {
        if image.is_empty() {
            return Err(ImageSourceError::Empty);
        }
        let path = match strip_prefix(image, NIX_SCHEME) {
            Some(path) => path,
            None => {
                return Ok(ImageSource::Oci(image.to_owned()));
            },
        };
        if !starts_with(path.as_str(), STORE_ROOT) {
            return Err(ImageSourceError::NotAStorePath { path });
        }
        let parts = split(path.as_str(), '/');
        if lists(parts.as_slice(), "..") {
            return Err(ImageSourceError::TraversesUpward { path });
        }
        if only_root(parts.as_slice()) {
            return Err(ImageSourceError::NoPackage);
        }
        Ok(ImageSource::NixClosure(path))
    }

    /// The path of the closure, where this is one.
    pub fn closure(&self) -> (r: Option<&str>)
        ensures
            match self {
                ImageSource::NixClosure(p) => r matches Some(s) && s@ == p@,
                ImageSource::Oci(_) => r is None,
            },
    {
        match self {
            ImageSource::NixClosure(p) => Some(p.as_str()),
            ImageSource::Oci(_) => None,
        }
    }

    /// Whether it runs without a container runtime.
    pub fn is_natively_runnable(&self) -> (r: bool)
        ensures
            r == (self is NixClosure),
    {
        match self {
            ImageSource::NixClosure(_) => true,
            ImageSource::Oci(_) => false,
        }
    }
}

// ---- laws ----------------------------------------------------------------------------------

/// What stands behind the root of the store lies in it where it holds a name and no step up: a single
/// step up, or no name at all, and it does not.
pub proof fn what_lies_in_the_store(names: Seq<Seq<char>>, i: int)
    requires
        names.len() > 0,
        0 <= i < names.len(),
        forall|k: int, j: int|
            0 <= k < names.len() && 0 <= j < names[k].len() ==> #[trigger] names[k][j] != '/',
    ensures
        ({
            let path = "/nix/store/"@ + scan::glued(names, seq!['/']);
            &&& names[i] == ".."@ ==> !in_store(path)
            &&& names[i].len() > 0 && names[i] != "."@ && !names.contains(".."@) ==> in_store(path)
            &&& (forall|k: int|
                0 <= k < names.len() ==> (#[trigger] names[k]).len() == 0 || names[k] == "."@)
                ==> !in_store(path)
        }),
{
    reveal_strlit("/nix/store/");
    reveal_strlit("nix");
    reveal_strlit("store");
    reveal_strlit("..");
    let root = seq![Seq::<char>::empty(), "nix"@, "store"@];
    let all = root + names;
    let rest = scan::glued(names, seq!['/']);
    let path = "/nix/store/"@ + rest;
    assert forall|k: int, j: int| 0 <= k < all.len() && 0 <= j < all[k].len() implies #[trigger] all[k][j]
        != '/' by {
        if k >= 3 {
            assert(all[k] == names[k - 3]);
            assert(names[k - 3][j] != '/');
        } else if k == 1 {
            assert(all[1] == "nix"@);
            assert("nix"@[0] == 'n' && "nix"@[1] == 'i' && "nix"@[2] == 'x');
        } else if k == 2 {
            assert(all[2] == "store"@);
            assert("store"@[0] == 's' && "store"@[1] == 't' && "store"@[2] == 'o' && "store"@[3]
                == 'r' && "store"@[4] == 'e');
        }
    }
    let a = seq!["store"@] + names;
    let b = seq!["nix"@] + a;
    assert(all =~= seq![Seq::<char>::empty()] + b);
    scan::glued_begins("store"@, names, seq!['/']);
    scan::glued_begins("nix"@, a, seq!['/']);
    scan::glued_begins(Seq::empty(), b, seq!['/']);
    assert("/nix/store/"@ =~= seq!['/'] + "nix"@ + seq!['/'] + "store"@ + seq!['/']);
    assert(scan::glued(all, seq!['/']) =~= path);
    scan::what_was_put_together_comes_apart(all, '/');
    let parts = scan::pieces(path, '/');
    assert(parts == all);
    scan::what_begins_a_text("/nix/store/"@, rest, path);
    assert(parts[i + 3] == names[i]);
    if names[i] == ".."@ {
        assert(parts.contains(".."@));
    }
    if !names.contains(".."@) {
        assert(!parts.contains(".."@)) by {
            if parts.contains(".."@) {
                let k = choose|k: int| 0 <= k < parts.len() && parts[k] == ".."@;
                assert(".."@.len() == 2);
                assert("nix"@.len() == 3);
                assert("store"@.len() == 5);
                assert(k >= 3);
                assert(names[k - 3] == ".."@);
            }
        }
    }
    if forall|k: int|
        0 <= k < names.len() ==> (#[trigger] names[k]).len() == 0 || names[k] == "."@ {
        assert forall|k: int| 3 <= k < parts.len() implies (#[trigger] parts[k]).len() == 0
            || parts[k] == "."@ by {
            assert(parts[k] == names[k - 3]);
        }
    }
}

} // verus!
