//! The anchor scanner: parses an HTML byte stream once and hands back the
//! `id` attribute values of its elements in document order.
//!
//! Parsing is permissive, as in a browser: malformed markup still yields a
//! tree, and a missing anchor is a legitimate negative result rather than a
//! parse error. The parse itself is done by an outside HTML parser; the
//! selection of `id` attributes out of the parsed attributes, and every
//! decision taken on them, is verified here.

use vstd::prelude::*;
use vstd::seq_lib::*;
use vstd::string::StringExecFns;

verus! {

/// The `(name, value)` attribute pairs of the elements of an HTML document,
/// in document pre-order, as the permissive parse of the bytes yields them.
pub uninterp spec fn attrs_of(html: Seq<u8>) -> Seq<(Seq<char>, Seq<char>)>;

/// The views of a sequence of owned attribute pairs.
pub open spec fn attr_views(s: Seq<(String, String)>) -> Seq<(Seq<char>, Seq<char>)> {
    s.map_values(|p: (String, String)| (p.0@, p.1@))
}

/// The views of a sequence of owned strings.
pub open spec fn string_views(s: Seq<String>) -> Seq<Seq<char>> {
    s.map_values(|x: String| x@)
}

/// The values of the `id` attributes among `attrs`, in order.
pub open spec fn ids_of(attrs: Seq<(Seq<char>, Seq<char>)>) -> Seq<Seq<char>>
    decreases attrs.len(),
{
    if attrs.len() == 0 {
        Seq::empty()
    } else if attrs.last().0 == "id"@ {
        ids_of(attrs.drop_last()).push(attrs.last().1)
    } else {
        ids_of(attrs.drop_last())
    }
}

/// The element ids of an HTML document: its `id` attribute values in
/// document order.
pub open spec fn doc_ids(html: Seq<u8>) -> Seq<Seq<char>> {
    ids_of(attrs_of(html))
}

/// Relies on scraper's `Html::parse_document`, a browser-grade permissive
/// HTML parse that never fails (invalid UTF-8 is decoded lossily first):
/// the result depends on the bytes alone. The elements are visited in
/// document pre-order, each handing over its attribute pairs.
#[verifier::external_body]
fn parse_element_attributes(html: &[u8]) -> (r: Vec<(String, String)>)
    ensures
        attr_views(r@) == attrs_of(html@),
{
    let text = String::from_utf8_lossy(html).into_owned();
    let doc = scraper::Html::parse_document(&text);
    let mut out: Vec<(String, String)> = Vec::new();
    for noderef in doc.tree.root().descendants() {
        if let scraper::node::Node::Element(e) = noderef.value() {
            for (name, value) in e.attrs() { out.push((name.to_string(), value.to_string())); }
        }
    }
    out
}

/// Parse the page once and collect every element id on it, in document
/// order.
pub fn element_ids(html: &[u8]) -> (r: Vec<String>)
    ensures
        string_views(r@) == doc_ids(html@),
{
    let attrs = parse_element_attributes(html);
    let ghost aseq = attr_views(attrs@);
    let id_name = String::from_str("id");
    let mut ids: Vec<String> = Vec::new();
    let n = attrs.len();
    let mut i: usize = 0;
    while i < n
        invariant
            n == attrs@.len(),
            0 <= i <= n,
            aseq == attr_views(attrs@),
            aseq == attrs_of(html@),
            id_name@ == "id"@,
            string_views(ids@) == ids_of(aseq.take(i as int)),
        decreases n - i,
    {
        let ghost ids0 = ids@;
        let pair = &attrs[i];
        if pair.0 == id_name {
            ids.push(pair.1.clone());
        }
        proof {
            assert(aseq[i as int] == (attrs@[i as int].0@, attrs@[i as int].1@));
            assert(aseq.take(i + 1).drop_last() =~= aseq.take(i as int));
            assert(aseq.take(i + 1).last() == aseq[i as int]);
            if attrs@[i as int].0@ == "id"@ {
                assert(ids@ == ids0.push(attrs@[i as int].1));
                ids0.lemma_push_map_commute(|x: String| x@, attrs@[i as int].1);
                assert(string_views(ids@) =~= string_views(ids0).push(aseq[i as int].1));
            } else {
                assert(ids@ == ids0);
            }
            assert(string_views(ids@) == ids_of(aseq.take(i + 1)));
        }
        i += 1;
    }
    proof {
        assert(aseq.take(n as int) =~= aseq);
    }
    ids
}

/// Whether `fragment` is among the ids, visiting them in order and
/// stopping at the first match.
pub fn find_id(ids: &Vec<String>, fragment: &str) -> (r: bool)
    ensures
        r == string_views(ids@).contains(fragment@),
{
    let frag_string = String::from_str(fragment);
    let n = ids.len();
    let mut i: usize = 0;
    while i < n
        invariant
            n == ids@.len(),
            0 <= i <= n,
            frag_string@ == fragment@,
            forall|j: int| 0 <= j < i ==> string_views(ids@)[j] != fragment@,
        decreases n - i,
    {
        if ids[i] == frag_string {
            proof {
                assert(string_views(ids@)[i as int] == fragment@);
            }
            return true;
        }
        proof {
            assert(string_views(ids@)[i as int] == ids@[i as int]@);
        }
        i += 1;
    }
    false
}

} // verus!
