//! A small HTML document writer: fixed meta tags in the head, free parts
//! in the body, one fixed document shell around them.
use vstd::prelude::*;

verus! {

use crate::response::utils::build_html;
use crate::response::utils::spec_html;
use crate::text::ascii_of;
use crate::text::lemma_seqs_view;
use crate::text::lit_vec;

/// The meta tags every generated document starts with.
pub open spec fn default_head() -> Seq<Seq<u8>> {
    seq![
        ascii_of("<meta charset=\"UTF-8\" />"),
        ascii_of("<meta http-equiv=\"X-UA-Compatible\" content=\"IE=edge\" />"),
        ascii_of("<meta name=\"viewport\" content=\"width=device-width, initial-scale=1.0\" />"),
    ]
}

/// Collects the parts of one HTML document.
pub struct HTMLBuilder {
    head: Vec<Vec<u8>>,
    body: Vec<Vec<u8>>,
}

impl HTMLBuilder {
    /// The head parts, for specifications.
    pub closed spec fn head_spec(&self) -> Seq<Seq<u8>> {
        self.head.deep_view()
    }

    /// The body parts, for specifications.
    pub closed spec fn body_spec(&self) -> Seq<Seq<u8>> {
        self.body.deep_view()
    }

    /// A document with the standard meta tags and an empty body.
    pub fn new() -> (r: Self)
        ensures
            r.head_spec() == default_head(),
            r.body_spec() == Seq::<Seq<u8>>::empty(),
    {
        proof {
            reveal_strlit("<meta charset=\"UTF-8\" />");
            reveal_strlit("<meta http-equiv=\"X-UA-Compatible\" content=\"IE=edge\" />");
            reveal_strlit(
                "<meta name=\"viewport\" content=\"width=device-width, initial-scale=1.0\" />",
            );
        }
        let mut head: Vec<Vec<u8>> = Vec::new();
        head.push(lit_vec("<meta charset=\"UTF-8\" />"));
        head.push(lit_vec("<meta http-equiv=\"X-UA-Compatible\" content=\"IE=edge\" />"));
        head.push(
            lit_vec("<meta name=\"viewport\" content=\"width=device-width, initial-scale=1.0\" />"),
        );
        let body: Vec<Vec<u8>> = Vec::new();
        proof {
            lemma_seqs_view(head);
            assert(head.deep_view() =~= default_head());
            assert(body.deep_view() =~= Seq::<Seq<u8>>::empty());
        }
        HTMLBuilder { head, body }
    }

    /// Add one part to the head.
    pub fn add_to_head(&mut self, item: Vec<u8>)
        ensures
            final(self).head_spec() == old(self).head_spec().push(item@),
            final(self).body_spec() == old(self).body_spec(),
    {
        let ghost before = self.head;
        self.head.push(item);
        proof {
            lemma_seqs_view(before);
            lemma_seqs_view(self.head);
            assert(self.head.deep_view() =~= before.deep_view().push(item@));
        }
    }

    /// Add one part to the body.
    pub fn add_to_body(&mut self, item: Vec<u8>)
        ensures
            final(self).body_spec() == old(self).body_spec().push(item@),
            final(self).head_spec() == old(self).head_spec(),
    {
        let ghost before = self.body;
        self.body.push(item);
        proof {
            lemma_seqs_view(before);
            lemma_seqs_view(self.body);
            assert(self.body.deep_view() =~= before.deep_view().push(item@));
        }
    }

    /// How many parts the document has.
    pub fn get_len(&self) -> (r: usize)
        requires
            self.head_spec().len() + self.body_spec().len() <= usize::MAX,
        ensures
            r == self.head_spec().len() + self.body_spec().len(),
    {
        proof {
            lemma_seqs_view(self.head);
            lemma_seqs_view(self.body);
        }
        self.body.len() + self.head.len()
    }

    /// Render the document.
    pub fn construct(&self) -> (r: Vec<u8>)
        ensures
            r@ == spec_html(self.head_spec(), self.body_spec()),
    {
        build_html(&self.head, &self.body)
    }
}

} // verus!
