//! A run over one source tree: its documents, roots and page templates.
use crate::book::{book_plan, doc_stems, part_for, BookPart};
use crate::document::{webgen_outcome, DocError, Document, SiteAction};
use handlebars::Handlebars;
use vstd::prelude::*;

verus! {

pub struct Web<'a> {
    pub in_path: String,
    pub out_path: String,
    pub template_dir_path: String,
    pub doc_list: Vec<Document>,
    pub template_registry: Handlebars<'a>,
}

impl<'a> Web<'a> {
    /// A run over the documents found under `in_path`, in the order they were
    /// found, writing under `out_path` with the templates of `template_registry`.
    pub fn new(
        in_path: String,
        out_path: String,
        template_dir_path: String,
        doc_list: Vec<Document>,
        template_registry: Handlebars<'a>,
    ) -> (r: Web<'a>)
        ensures
            r.in_path == in_path,
            r.out_path == out_path,
            r.template_dir_path == template_dir_path,
            r.docs() == doc_list@,
    {
        Web { in_path, out_path, template_dir_path, doc_list, template_registry }
    }

    pub open spec fn docs(&self) -> Seq<Document> {
        self.doc_list@
    }

    /// The documents of the run, in the order they were found.
    pub fn doc_list(&self) -> (r: &Vec<Document>)
        ensures
            r@ == self.docs(),
    {
        &self.doc_list
    }

    /// What the website makes of each document, in order; the first failure ends
    /// the run.
    pub fn website_plan(&self) -> (r: Result<Vec<SiteAction>, DocError>)
        ensures
            match r {
                Ok(actions) => actions.len() == self.docs().len() && forall|i: int|
                    0 <= i < actions.len() ==> webgen_outcome(
                        self.docs()[i],
                        self.in_path@,
                        self.out_path@,
                        Ok(#[trigger] actions@[i]),
                    ),
                Err(e) => exists|i: int|
                    0 <= i < self.docs().len() && webgen_outcome(
                        #[trigger] self.docs()[i],
                        self.in_path@,
                        self.out_path@,
                        Err(e),
                    ) && forall|j: int|
                        0 <= j < i ==> crate::path::relative_to(
                            #[trigger] self.docs()[j].source_path@,
                            self.in_path@,
                        ) is Some,
            },
    {
        let mut actions: Vec<SiteAction> = Vec::new();
        let mut i: usize = 0;
        while i < self.doc_list.len()
            invariant
                i <= self.doc_list.len(),
                actions.len() == i,
                forall|j: int|
                    0 <= j < i ==> webgen_outcome(
                        self.doc_list@[j],
                        self.in_path@,
                        self.out_path@,
                        Ok(#[trigger] actions@[j]),
                    ),
            decreases self.doc_list.len() - i,
        {
            let r = self.doc_list[i].webgen(
                self.in_path.as_str(),
                self.out_path.as_str(),
                &self.template_registry,
            );
            match r {
                Ok(a) => {
                    actions.push(a);
                },
                Err(e) => {
                    assert forall|j: int| 0 <= j < i implies crate::path::relative_to(
                        #[trigger] self.docs()[j].source_path@,
                        self.in_path@,
                    ) is Some by {
                        assert(webgen_outcome(
                            self.doc_list@[j],
                            self.in_path@,
                            self.out_path@,
                            Ok(actions@[j]),
                        ));
                    }
                    assert(webgen_outcome(
                        self.docs()[i as int],
                        self.in_path@,
                        self.out_path@,
                        Err(e),
                    ));
                    return Err(e);
                },
            }
            i = i + 1;
        }
        Ok(actions)
    }

    /// The parts of the eBook, one per document in order.
    pub fn book_plan(&self) -> (r: Result<Vec<BookPart>, DocError>)
        ensures
            match r {
                Ok(parts) => parts.len() == self.docs().len() && forall|i: int|
                    0 <= i < parts.len() ==> part_for(#[trigger] parts@[i], self.docs(), i),
                Err(e) => exists|i: int|
                    0 <= i < self.docs().len() && doc_stems(self.docs())[i] is None && (
                    e matches DocError::Path { path } && path@ == self.docs()[i].source_path@),
            },
    {
        let r = book_plan(&self.doc_list);
        assert(self.docs() == self.doc_list@);
        r
    }

    /// Where a document goes under the output root.
    pub fn outpath(&self, doc: &Document) -> (r: Result<String, DocError>)
        ensures
            match crate::path::relative_to(doc.source_path@, self.in_path@) {
                Some(rel) => r matches Ok(p) && p@ == crate::path::join(self.out_path@, rel),
                None => r matches Err(DocError::Path { path }) && path@ == doc.source_path@,
            },
    {
        doc.outpath(self.in_path.as_str(), self.out_path.as_str())
    }
}

} // verus!
