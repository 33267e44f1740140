//! The endpoint-holding local-filesystem client.
//!
//! It tracks one endpoint and rewrites it for navigation; the reads it
//! performs against the filesystem live with the program around the
//! library.

use vstd::prelude::*;

use crate::ViewerError;
use crate::browser::join_path;
use crate::browser::parent_path;
use crate::browser::spec_change_dir;
use crate::browser::spec_full_path;
use crate::browser::spec_parent;
use crate::browser::ends_with_zip;
use crate::browser::{is_noop_path, is_parent_path, starts_with_path_forms};

verus! {

/// A local-filesystem client holding its current endpoint.
pub struct LocalFs {
    endpoint: String,
}

impl View for LocalFs {
    type V = Seq<char>;

    closed spec fn view(&self) -> Seq<char> {
        self.endpoint@
    }
}

impl LocalFs {
    /// A client at the given endpoint.
    pub fn new(endpoint: String) -> (r: LocalFs)
        ensures
            r@ == endpoint@,
    {
        LocalFs { endpoint }
    }

    /// The current endpoint joined with a relative path.
    pub fn get_full_path(&self, path: &str) -> (r: String)
        ensures
            r@ == spec_full_path(self@, path@),
    {
        join_path(self.endpoint.as_str(), path)
    }

    /// Replace the endpoint outright.
    pub fn set_endpoint(&mut self, endpoint: String)
        ensures
            final(self)@ == endpoint@,
    {
        self.endpoint = endpoint;
    }

    fn get_parent(&self) -> (r: String)
        ensures
            r@ == spec_parent(self@),
    {
        parent_path(self.endpoint.as_str())
    }

    /// Rewrite the endpoint for a `cd`, with the same semantics as the
    /// browser's `change_dir`; a failed call leaves the endpoint
    /// unchanged.
    pub fn change_dir(&mut self, path: &str) -> (r: Result<(), ViewerError>)
        ensures
            match r {
                Ok(_) => spec_change_dir(old(self)@, path@) == Ok::<Seq<char>, ViewerError>(
                    final(self)@,
                ),
                Err(e) => spec_change_dir(old(self)@, path@) == Err::<Seq<char>, ViewerError>(e)
                    && final(self)@ == old(self)@,
            },
    {
        if is_noop_path(path) {
            return Ok(());
        }
        if is_parent_path(path) {
            let parent = self.get_parent();
            self.endpoint = parent;
            return Ok(());
        }
        if starts_with_path_forms(path) {
            self.endpoint = path.to_owned();
            return Ok(());
        }
        if ends_with_zip(self.endpoint.as_str()) {
            return Err(ViewerError::CannotDescendIntoArchive);
        }
        let full = self.get_full_path(path);
        self.endpoint = full;
        Ok(())
    }

    /// The endpoint, verbatim.
    pub fn get_current_dir(&self) -> (r: String)
        ensures
            r@ == self@,
    {
        self.endpoint.clone()
    }
}

} // verus!
