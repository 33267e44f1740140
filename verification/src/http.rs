//! The endpoint-holding HTTP client.
//!
//! It tracks one endpoint and parses the listing bodies that the remote
//! object store returns; the requests themselves live with the program
//! around the library, which hands the response text in.

use vstd::prelude::*;

use crate::ViewerError;
use crate::browser::join_path;
use crate::browser::spec_full_path;

verus! {

/// An HTTP object-store client holding its current endpoint.
pub struct PublicHttpEndpoint {
    endpoint: String,
}

impl View for PublicHttpEndpoint {
    type V = Seq<char>;

    closed spec fn view(&self) -> Seq<char> {
        self.endpoint@
    }
}

impl PublicHttpEndpoint {
    /// A client at the given endpoint.
    pub fn new(endpoint: String) -> (r: Result<PublicHttpEndpoint, ViewerError>)
        ensures
            r matches Ok(c) && c@ == endpoint@,
    {
        Ok(PublicHttpEndpoint { endpoint })
    }

    /// The current endpoint joined with a relative path.
    pub fn get_full_path(&self, path: &str) -> (r: String)
        ensures
            r@ == spec_full_path(self@, path@),
    {
        join_path(self.endpoint.as_str(), path)
    }

    /// Replace the endpoint outright.
    pub fn set_endpoint(&mut self, endpoint: String)
        ensures
            final(self)@ == endpoint@,
    {
        self.endpoint = endpoint;
    }

    /// This client's `cd` always joins: the endpoint becomes the current
    /// endpoint extended by the path.
    pub fn change_dir(&mut self, path: &str) -> (r: Result<(), ViewerError>)
        ensures
            r is Ok,
            final(self)@ == spec_full_path(old(self)@, path@),
    {
        let full = self.get_full_path(path);
        self.endpoint = full;
        Ok(())
    }

    /// The endpoint, verbatim.
    pub fn get_current_dir(&self) -> (r: String)
        ensures
            r@ == self@,
    {
        self.endpoint.clone()
    }
}

// ---------------------------------------------------------------------------
// Listing bodies
// ---------------------------------------------------------------------------

/// What parsing a listing body yields: the `name` of each element of the
/// top-level `objects` array, in order, `None` where an element carries
/// no string `name`; or `None` overall when the body is not a JSON
/// object with an `objects` array.  A function of the body text alone.
pub uninterp spec fn object_names_of(body: Seq<char>) -> Option<Seq<Option<Seq<char>>>>;

/// Relies on `serde_json::from_str` and the `Value` accessors `get`,
/// `as_array` and `as_str`: parse the body as JSON, find the top-level
/// `objects` array and hand out each element's `name` string.
#[verifier::external_body]
fn parse_objects(body: &str) -> (r: Option<Vec<Option<String>>>)
    ensures
        match r {
            Some(names) => object_names_of(body@) == Some(names.deep_view()),
            None => object_names_of(body@) is None,
        },
{
    let v: serde_json::Value = match serde_json::from_str(body) {
        Ok(v) => v,
        Err(_) => return None,
    };
    let objs = match v.get("objects").and_then(|o| o.as_array()) {
        Some(a) => a,
        None => return None,
    };
    Some(objs.iter().map(|o| o.get("name").and_then(|n| n.as_str()).map(String::from)).collect())
}

/// The listing rows encoded by parsed object names: one single-column
/// row per object that carries a name, in order; nameless objects are
/// skipped.
pub open spec fn spec_name_rows(names: Seq<Option<Seq<char>>>) -> Seq<Seq<Seq<char>>>
    decreases names.len(),
{
    if names.len() == 0 {
        Seq::empty()
    } else {
        let front = spec_name_rows(names.drop_last());
        match names.last() {
            Some(n) => front.push(seq![n]),
            None => front,
        }
    }
}

/// Parse an object-store listing body into rows: one single-column row
/// per object that carries a name, in listing order; objects without a
/// name are skipped, and a body that is not a listing is refused.
pub fn parse_object_listing(body: &str) -> (r: Result<Vec<Vec<String>>, ViewerError>)
    ensures
        match r {
            Ok(rows) => object_names_of(body@) matches Some(ns) && rows.deep_view()
                == spec_name_rows(ns),
            Err(e) => object_names_of(body@) is None && e matches ViewerError::Decode,
        },
{
    let names = match parse_objects(body) {
        Some(ns) => ns,
        None => {
            return Err(ViewerError::Decode);
        },
    };
    let ghost all = names.deep_view();
    let mut rows: Vec<Vec<String>> = Vec::new();
    let mut i: usize = 0;
    while i < names.len()
        invariant
            i <= names.len(),
            all == names.deep_view(),
            rows.deep_view() == spec_name_rows(all.take(i as int)),
        decreases names.len() - i,
    {
        let ghost old_rows = rows.deep_view();
        proof {
            assert(all[i as int] == names@[i as int].deep_view());
        }
        match &names[i] {
            Some(name) => {
                let mut row: Vec<String> = Vec::new();
                row.push(name.clone());
                rows.push(row);
            },
            None => {},
        }
        proof {
            let ext = all.take(i as int + 1);
            assert(ext.drop_last() =~= all.take(i as int));
            assert(ext.last() == all[i as int]);
            match all[i as int] {
                Some(n) => {
                    assert(rows.deep_view() =~~= old_rows.push(seq![n]));
                },
                None => {
                    assert(rows.deep_view() =~~= old_rows);
                },
            }
        }
        i = i + 1;
    }
    proof {
        assert(all.take(names@.len() as int) =~= all);
    }
    Ok(rows)
}

} // verus!
