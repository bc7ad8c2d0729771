//! The value of the `Authorization` header.

use vstd::prelude::*;
use vstd::string::*;
use crate::encoding::{encode, percent_encoded};
use crate::params::pairs_view;
use crate::text::{append, append_ascii, ascii};

verus! {

/// One parameter in the header: the encoded name, `=`, and the encoded value
/// in double quotes.
pub open spec fn header_item(p: (Seq<u8>, Seq<u8>)) -> Seq<u8> {
    percent_encoded(p.0) + seq![0x3Du8, 0x22u8] + percent_encoded(p.1) + seq![0x22u8]
}

/// The parameters in the order given, with a comma and a space between them.
pub open spec fn header_items(ps: Seq<(Seq<u8>, Seq<u8>)>) -> Seq<u8>
    decreases ps.len(),
{
    if ps.len() == 0 {
        Seq::empty()
    } else if ps.len() == 1 {
        header_item(ps[0])
    } else {
        header_items(ps.drop_last()) + seq![0x2Cu8, 0x20u8] + header_item(ps.last())
    }
}

/// The header value: `OAuth ` and the parameters.
pub open spec fn header_text(ps: Seq<(Seq<u8>, Seq<u8>)>) -> Seq<u8> {
    ascii("OAuth "@) + header_items(ps)
}

/// Assembles the header value from the protocol parameters, the signature
/// among them, keeping their order.
pub fn assemble(params: &Vec<(Vec<u8>, Vec<u8>)>) -> (res: Vec<u8>)
    ensures
        res@ == header_text(pairs_view(params@)),
{
    let mut res: Vec<u8> = Vec::new();
    proof {
        reveal_strlit("OAuth ");
    }
    append_ascii(&mut res, "OAuth ");
    let ghost head = res@;
    let mut i: usize = 0;
    assert(pairs_view(params@).subrange(0, 0).len() == 0);
    assert(res@ =~= head + header_items(pairs_view(params@).subrange(0, 0)));
    while i < params.len()
        invariant
            i <= params@.len(),
            head == ascii("OAuth "@),
            res@ == head + header_items(pairs_view(params@).subrange(0, i as int)),
        decreases params@.len() - i,
    {
        let ghost before = pairs_view(params@).subrange(0, i as int);
        let ghost after = pairs_view(params@).subrange(0, i + 1);
        if i > 0 {
            res.push(0x2Cu8);
            res.push(0x20u8);
        }
        let name = encode(params[i].0.as_slice());
        let value = encode(params[i].1.as_slice());
        append(&mut res, name.as_slice());
        res.push(0x3Du8);
        res.push(0x22u8);
        append(&mut res, value.as_slice());
        res.push(0x22u8);
        proof {
            assert(after.drop_last() =~= before);
            assert(after.last() == (params@[i as int].0@, params@[i as int].1@));
            assert(res@ =~= head + header_items(after));
        }
        i += 1;
    }
    assert(pairs_view(params@).subrange(0, i as int) =~= pairs_view(params@));
    res
}

} // verus!
