//! Helpers for the response assembler: extra configured headers, JSON
//! renderings of maps and lists, and the fixed HTML document shell.
use vstd::prelude::*;

verus! {

use crate::assoc::assoc_insert;
use crate::assoc::lemma_kv_view;
use crate::response::builder::ResponseBuilder;
use crate::response::json_builder::json_pair;
use crate::text::append_bytes;
use crate::text::append_lit;
use crate::text::ascii_of;
use crate::text::clone_bytes;
use crate::text::lemma_seqs_view;

/// Fold a pair list into a header map, first pair first.
pub open spec fn insert_pairs(hs: Seq<(Seq<u8>, Seq<u8>)>, ps: Seq<(Seq<u8>, Seq<u8>)>) -> Seq<
    (Seq<u8>, Seq<u8>),
>
    decreases ps.len(),
{
    if ps.len() == 0 {
        hs
    } else {
        insert_pairs(assoc_insert(hs, ps[0].0, ps[0].1), ps.drop_first())
    }
}

/// Apply the extra headers named in the configuration to a response.
pub fn apply_extra_headers(response: &mut ResponseBuilder, extra_headers: &Vec<(Vec<u8>, Vec<u8>)>)
    ensures
        final(response).headers@ == insert_pairs(old(response).headers@, extra_headers.deep_view()),
        final(response).protocol_spec() == old(response).protocol_spec(),
        final(response).status_code == old(response).status_code,
        final(response).body_spec() == old(response).body_spec(),
        final(response).config@ == old(response).config@,
{
    proof {
        lemma_kv_view(*extra_headers);
    }
    let ghost ps = extra_headers.deep_view();
    proof {
        assert(ps.skip(0) =~= ps);
    }
    let mut i: usize = 0;
    while i < extra_headers.len()
        invariant
            0 <= i <= extra_headers@.len(),
            ps == extra_headers.deep_view(),
            ps.len() == extra_headers@.len(),
            forall|j: int|
                0 <= j < extra_headers@.len() ==> #[trigger] ps[j] == (
                    extra_headers@[j].0@,
                    extra_headers@[j].1.deep_view(),
                ),
            insert_pairs(old(response).headers@, ps) == insert_pairs(
                response.headers@,
                ps.skip(i as int),
            ),
            response.protocol_spec() == old(response).protocol_spec(),
            response.status_code == old(response).status_code,
            response.body_spec() == old(response).body_spec(),
            response.config@ == old(response).config@,
        decreases extra_headers@.len() - i,
    {
        proof {
            assert(ps.skip(i as int)[0] == ps[i as int]);
            assert(ps.skip(i as int).drop_first() =~= ps.skip(i as int + 1));
            assert(extra_headers@[i as int].1.deep_view() =~= extra_headers@[i as int].1@);
        }
        let key = clone_bytes(&extra_headers[i].0);
        let val = clone_bytes(&extra_headers[i].1);
        response.add_header(key, val);
        i = i + 1;
    }
    proof {
        assert(ps.skip(ps.len() as int) =~= Seq::<(Seq<u8>, Seq<u8>)>::empty());
    }
}

/// The pairs of a JSON object, each followed by a comma.
pub open spec fn json_pairs(ps: Seq<(Seq<u8>, Seq<u8>)>) -> Seq<u8>
    decreases ps.len(),
{
    if ps.len() == 0 {
        seq![]
    } else {
        json_pairs(ps.drop_last()) + json_pair(ps.last().0, ps.last().1) + seq![44u8]
    }
}

/// A whole JSON object: braces around the pairs, without the trailing
/// comma.
pub open spec fn spec_map_json(ps: Seq<(Seq<u8>, Seq<u8>)>) -> Seq<u8> {
    seq![123u8] + (if ps.len() == 0 {
        Seq::<u8>::empty()
    } else {
        json_pairs(ps).drop_last()
    }) + seq![125u8]
}

/// Render a pair list as a JSON object.
pub fn map_as_json_str(mp: &Vec<(Vec<u8>, Vec<u8>)>) -> (r: Vec<u8>)
    ensures
        r@ == spec_map_json(mp.deep_view()),
{
    proof {
        lemma_kv_view(*mp);
    }
    let ghost ps = mp.deep_view();
    let mut json: Vec<u8> = Vec::new();
    json.push(123);
    let mut i: usize = 0;
    while i < mp.len()
        invariant
            0 <= i <= mp@.len(),
            ps == mp.deep_view(),
            ps.len() == mp@.len(),
            forall|j: int|
                0 <= j < mp@.len() ==> #[trigger] ps[j] == (mp@[j].0@, mp@[j].1.deep_view()),
            json@ == seq![123u8] + json_pairs(ps.subrange(0, i as int)),
        decreases mp@.len() - i,
    {
        json.push(34);
        append_bytes(&mut json, &mp[i].0);
        json.push(34);
        json.push(58);
        json.push(32);
        json.push(34);
        append_bytes(&mut json, &mp[i].1);
        json.push(34);
        json.push(44);
        proof {
            assert(mp@[i as int].1.deep_view() =~= mp@[i as int].1@);
            assert(ps.subrange(0, i + 1).drop_last() =~= ps.subrange(0, i as int));
            assert(ps.subrange(0, i + 1).last() == ps[i as int]);
            assert(json@ =~= seq![123u8] + json_pairs(ps.subrange(0, i + 1)));
        }
        i = i + 1;
    }
    proof {
        assert(ps.subrange(0, ps.len() as int) =~= ps);
    }
    if json.len() > 1 {
        json.pop();
        proof {
            assert(json_pairs(ps).len() > 0);
            assert(json@ =~= seq![123u8] + json_pairs(ps).drop_last());
        }
    }
    json.push(125);
    proof {
        assert(json@ =~= spec_map_json(ps));
    }
    json
}

/// The items of a JSON array, each quoted and followed by a comma.
pub open spec fn json_items(items: Seq<Seq<u8>>) -> Seq<u8>
    decreases items.len(),
{
    if items.len() == 0 {
        seq![]
    } else {
        json_items(items.drop_last()) + seq![34u8] + items.last() + seq![34u8, 44u8]
    }
}

/// A whole JSON array: brackets around the items, without the trailing
/// comma.
pub open spec fn spec_vec_json(items: Seq<Seq<u8>>) -> Seq<u8> {
    seq![91u8] + (if items.len() == 0 {
        Seq::<u8>::empty()
    } else {
        json_items(items).drop_last()
    }) + seq![93u8]
}

/// Render a list of names as a JSON array of strings.
pub fn vec_as_json_str(vec: &Vec<Vec<u8>>) -> (r: Vec<u8>)
    ensures
        r@ == spec_vec_json(vec.deep_view()),
{
    proof {
        lemma_seqs_view(*vec);
    }
    let ghost items = vec.deep_view();
    let mut json: Vec<u8> = Vec::new();
    json.push(91);
    let mut i: usize = 0;
    while i < vec.len()
        invariant
            0 <= i <= vec@.len(),
            items == vec.deep_view(),
            items.len() == vec@.len(),
            forall|j: int| 0 <= j < vec@.len() ==> #[trigger] items[j] == vec@[j]@,
            json@ == seq![91u8] + json_items(items.subrange(0, i as int)),
        decreases vec@.len() - i,
    {
        json.push(34);
        append_bytes(&mut json, &vec[i]);
        json.push(34);
        json.push(44);
        proof {
            assert(items.subrange(0, i + 1).drop_last() =~= items.subrange(0, i as int));
            assert(items.subrange(0, i + 1).last() == items[i as int]);
            assert(json@ =~= seq![91u8] + json_items(items.subrange(0, i + 1)));
        }
        i = i + 1;
    }
    proof {
        assert(items.subrange(0, items.len() as int) =~= items);
    }
    if json.len() > 1 {
        json.pop();
        proof {
            assert(json_items(items).len() > 0);
            assert(json@ =~= seq![91u8] + json_items(items).drop_last());
        }
    }
    json.push(93);
    proof {
        assert(json@ =~= spec_vec_json(items));
    }
    json
}

/// Concatenate document parts in order.
pub open spec fn concat_seqs(parts: Seq<Seq<u8>>) -> Seq<u8>
    decreases parts.len(),
{
    if parts.len() == 0 {
        seq![]
    } else {
        concat_seqs(parts.drop_last()) + parts.last()
    }
}

/// The fixed HTML document shell around head and body parts.
pub open spec fn spec_html(head: Seq<Seq<u8>>, body: Seq<Seq<u8>>) -> Seq<u8> {
    ascii_of("<!DOCTYPE html>") + ascii_of("<html>") + ascii_of("<head>") + concat_seqs(head)
        + ascii_of("</head>") + ascii_of("<body>") + concat_seqs(body) + ascii_of("</body>")
        + ascii_of("</html>")
}

/// Render an HTML document from head and body parts.
pub fn build_html(head: &Vec<Vec<u8>>, body: &Vec<Vec<u8>>) -> (r: Vec<u8>)
    ensures
        r@ == spec_html(head.deep_view(), body.deep_view()),
{
    proof {
        lemma_seqs_view(*head);
        lemma_seqs_view(*body);
        reveal_strlit("<!DOCTYPE html>");
        reveal_strlit("<html>");
        reveal_strlit("<head>");
        reveal_strlit("</head>");
        reveal_strlit("<body>");
        reveal_strlit("</body>");
        reveal_strlit("</html>");
    }
    let ghost hd = head.deep_view();
    let ghost bd = body.deep_view();
    let mut doc: Vec<u8> = Vec::new();
    append_lit(&mut doc, "<!DOCTYPE html>");
    append_lit(&mut doc, "<html>");
    append_lit(&mut doc, "<head>");
    let ghost pre = doc@;
    let mut i: usize = 0;
    while i < head.len()
        invariant
            0 <= i <= head@.len(),
            hd == head.deep_view(),
            hd.len() == head@.len(),
            forall|j: int| 0 <= j < head@.len() ==> #[trigger] hd[j] == head@[j]@,
            doc@ == pre + concat_seqs(hd.subrange(0, i as int)),
        decreases head@.len() - i,
    {
        append_bytes(&mut doc, &head[i]);
        proof {
            assert(hd.subrange(0, i + 1).drop_last() =~= hd.subrange(0, i as int));
            assert(hd.subrange(0, i + 1).last() == hd[i as int]);
            assert(doc@ =~= pre + concat_seqs(hd.subrange(0, i + 1)));
        }
        i = i + 1;
    }
    proof {
        assert(hd.subrange(0, hd.len() as int) =~= hd);
        reveal_strlit("</head>");
        reveal_strlit("<body>");
    }
    append_lit(&mut doc, "</head>");
    append_lit(&mut doc, "<body>");
    let ghost mid = doc@;
    let mut k: usize = 0;
    while k < body.len()
        invariant
            0 <= k <= body@.len(),
            bd == body.deep_view(),
            bd.len() == body@.len(),
            forall|j: int| 0 <= j < body@.len() ==> #[trigger] bd[j] == body@[j]@,
            doc@ == mid + concat_seqs(bd.subrange(0, k as int)),
        decreases body@.len() - k,
    {
        append_bytes(&mut doc, &body[k]);
        proof {
            assert(bd.subrange(0, k + 1).drop_last() =~= bd.subrange(0, k as int));
            assert(bd.subrange(0, k + 1).last() == bd[k as int]);
            assert(doc@ =~= mid + concat_seqs(bd.subrange(0, k + 1)));
        }
        k = k + 1;
    }
    proof {
        assert(bd.subrange(0, bd.len() as int) =~= bd);
        reveal_strlit("</body>");
        reveal_strlit("</html>");
    }
    append_lit(&mut doc, "</body>");
    append_lit(&mut doc, "</html>");
    proof {
        assert(doc@ =~= spec_html(hd, bd));
    }
    doc
}

} // verus!
