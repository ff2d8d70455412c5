//! The body of a parsed request: exactly one of a plain text body or a
//! multipart value of named text fields and spooled files.

use vstd::prelude::*;

use crate::kvlist::{kv_view, kv_wf};

verus! {

/// The multipart half of a request body: text fields by name, one
/// (declared file name, spool path) pair per file part in arrival order, and
/// the request's private scratch directory that holds the spooled files.
pub struct Multipart {
    pub fields: Vec<(String, String)>,
    pub files: Vec<(String, String)>,
    pub files_dir: String,
}

impl Multipart {
    /// Field names are unique: a repeated name keeps the last sent value.
    pub open spec fn wf(&self) -> bool {
        kv_wf(kv_view(self.fields@))
    }

    pub open spec fn spec_fields(&self) -> Seq<(Seq<char>, Seq<char>)> {
        kv_view(self.fields@)
    }

    pub open spec fn spec_files(&self) -> Seq<(Seq<char>, Seq<char>)> {
        Seq::new(self.files@.len(), |i: int| (self.files@[i].0@, self.files@[i].1@))
    }

    pub fn new(fields: Vec<(String, String)>, files: Vec<(String, String)>, files_dir: String) -> (r:
        Multipart)
        requires
            kv_wf(kv_view(fields@)),
        ensures
            r.spec_fields() == kv_view(fields@),
            r.spec_files() == Seq::new(files@.len(), |i: int| (files@[i].0@, files@[i].1@)),
            r.files_dir@ == files_dir@,
            r.wf(),
    {
        Multipart { fields, files, files_dir }
    }

    pub fn fields(&self) -> (r: &Vec<(String, String)>)
        ensures
            kv_view(r@) == self.spec_fields(),
    {
        &self.fields
    }

    pub fn files(&self) -> (r: &Vec<(String, String)>)
        ensures
            r@.len() == self.spec_files().len(),
            forall|i: int|
                0 <= i < r@.len() ==> (#[trigger] r@[i].0)@ == self.spec_files()[i].0 && r@[i].1@
                    == self.spec_files()[i].1,
    {
        &self.files
    }

    pub fn files_dir(&self) -> (r: &String)
        ensures
            r == self.files_dir,
    {
        &self.files_dir
    }

    pub open spec fn spec_files_dir(&self) -> Seq<char> {
        self.files_dir@
    }
}

/// A request body is exactly one of plain text or multipart content.
pub enum Content {
    Plain(String),
    Multipart(Multipart),
}

impl Content {
    pub open spec fn wf(&self) -> bool {
        match self {
            Content::Plain(_) => true,
            Content::Multipart(m) => m.wf(),
        }
    }
}

} // verus!
