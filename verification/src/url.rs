//! An already-validated absolute URL with an optional fragment (anchor name).
//!
//! The value is plain data: the caller validates and resolves URLs before
//! handing them in. Two URLs that differ only in their fragment are distinct
//! cache keys, so equality is structural over both components.

use vstd::prelude::*;
use vstd::string::StringExecFns;

verus! {

/// The mathematical value of a [`Url`]: its base (everything before the
/// fragment separator) and its optional fragment.
#[verifier::ext_equal]
pub ghost struct UrlModel {
    pub base: Seq<char>,
    pub fragment: Option<Seq<char>>,
}

/// The view of an optional owned fragment string.
pub open spec fn opt_string_view(f: Option<String>) -> Option<Seq<char>> {
    match f {
        Some(s) => Some(s@),
        None => None,
    }
}

/// The view of an optional borrowed fragment string.
pub open spec fn opt_str_view(f: Option<&str>) -> Option<Seq<char>> {
    match f {
        Some(s) => Some(s@),
        None => None,
    }
}

/// An absolute URL with an optional fragment component.
pub struct Url {
    base: String,
    fragment: Option<String>,
}

impl View for Url {
    type V = UrlModel;

    closed spec fn view(&self) -> UrlModel {
        UrlModel { base: self.base@, fragment: opt_string_view(self.fragment) }
    }
}

impl Url {
    /// Build a URL from its base and optional fragment.
    pub fn new(base: String, fragment: Option<String>) -> (r: Url)
        ensures
            r@ == (UrlModel { base: base@, fragment: opt_string_view(fragment) }),
    {
        Url { base, fragment }
    }

    /// The base component, without any fragment.
    pub fn base(&self) -> (r: &String)
        ensures
            r@ == self@.base,
    {
        &self.base
    }

    /// The fragment component, if any.
    pub fn fragment(&self) -> (r: Option<&String>)
        ensures
            match r {
                Some(f) => self@.fragment == Some(f@),
                None => self@.fragment is None,
            },
    {
        match &self.fragment {
            Some(f) => Some(f),
            None => None,
        }
    }

    /// Whether the URL carries a fragment.
    pub fn has_fragment(&self) -> (r: bool)
        ensures
            r == (self@.fragment is Some),
    {
        match &self.fragment {
            Some(_) => true,
            None => false,
        }
    }

    /// A copy of this URL.
    pub fn duplicate(&self) -> (r: Url)
        ensures
            r@ == self@,
    {
        Url {
            base: self.base.clone(),
            fragment: match &self.fragment {
                Some(f) => Some(f.clone()),
                None => None,
            },
        }
    }

    /// The same base with the given fragment in place of the current one.
    pub fn replace_fragment(&self, fragment: Option<&str>) -> (r: Url)
        ensures
            r@ == (UrlModel { base: self@.base, fragment: opt_str_view(fragment) }),
    {
        Url {
            base: self.base.clone(),
            fragment: match fragment {
                Some(f) => Some(String::from_str(f)),
                None => None,
            },
        }
    }
}

/// Structural equality of two URLs: equal bases and equal fragments.
pub fn url_eq(a: &Url, b: &Url) -> (r: bool)
    ensures
        r == (a@ == b@),
{
    let base_eq = a.base == b.base;
    let frag_eq = match (&a.fragment, &b.fragment) {
        (None, None) => true,
        (Some(x), Some(y)) => *x == *y,
        _ => false,
    };
    let r = base_eq && frag_eq;
    proof {
        if r {
            assert(a@ =~= b@);
        }
    }
    r
}

} // verus!
