//! A small JSON object writer for directory listings.
use vstd::prelude::*;

verus! {

/// One JSON string pair: `"key": "value"`.
pub open spec fn json_pair(k: Seq<u8>, v: Seq<u8>) -> Seq<u8> {
    seq![34u8] + k + seq![34u8, 58u8, 32u8, 34u8] + v + seq![34u8]
}

/// Builds a JSON object one pair at a time.
pub struct JSONBuilder {
    pub json: Vec<u8>,
}

impl JSONBuilder {
    /// An object with no pairs yet.
    pub fn new() -> (r: Self)
        ensures
            r.json@ == seq![123u8],
    {
        let mut json: Vec<u8> = Vec::new();
        json.push(123);
        proof {
            assert(json@ =~= seq![123u8]);
        }
        JSONBuilder { json }
    }

    /// Add one pair, with a comma before it when pairs already exist.
    pub fn add_pair(&mut self, key: Vec<u8>, val: Vec<u8>)
        ensures
            final(self).json@ == old(self).json@ + (if old(self).json@.len() > 1 {
                seq![44u8]
            } else {
                Seq::<u8>::empty()
            }) + json_pair(key@, val@),
    {
        let ghost start = self.json@;
        if self.json.len() > 1 {
            self.json.push(44);
        }
        self.json.push(34);
        crate::text::append_bytes(&mut self.json, &key);
        self.json.push(34);
        self.json.push(58);
        self.json.push(32);
        self.json.push(34);
        crate::text::append_bytes(&mut self.json, &val);
        self.json.push(34);
        proof {
            assert(self.json@ =~= start + (if start.len() > 1 {
                seq![44u8]
            } else {
                Seq::<u8>::empty()
            }) + json_pair(key@, val@));
        }
    }

    /// Close the object and hand it back.
    pub fn build(&mut self) -> (r: Vec<u8>)
        ensures
            final(self).json@ == old(self).json@ + seq![125u8],
            r@ == old(self).json@ + seq![125u8],
    {
        self.json.push(125);
        let r = crate::text::clone_bytes(&self.json);
        proof {
            assert(self.json@ =~= old(self).json@ + seq![125u8]);
        }
        r
    }
}

} // verus!
