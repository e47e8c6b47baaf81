//! Text of the answers of a Guard, for the local log.

use vstd::prelude::*;
use vstd::string::StringExecFns;
use crate::protocol::{NuxResponse, ResponseModel};
use crate::text::push_decimal;

verus! {

/// A text between quotes, with its special characters escaped, as `{:?}` writes it.
pub uninterp spec fn quoted(s: Seq<char>) -> Seq<char>;

/// `format!("{:?}", ..)` of a `str`.
#[verifier::external_body]
fn quote(s: &str) -> (r: String)
    ensures
        r@ == quoted(s@),
{
    format!("{:?}", s)
}

/// Integers in decimal, separated by commas.
pub open spec fn byte_list(v: Seq<u8>) -> Seq<char>
    decreases v.len(),
{
    if v.len() == 0 {
        Seq::empty()
    } else if v.len() == 1 {
        crate::text::decimal(v[0] as nat)
    } else {
        byte_list(v.drop_last()) + ", "@ + crate::text::decimal(v.last() as nat)
    }
}

/// Quoted texts, separated by commas.
pub open spec fn quoted_list(v: Seq<Seq<char>>) -> Seq<char>
    decreases v.len(),
{
    if v.len() == 0 {
        Seq::empty()
    } else if v.len() == 1 {
        quoted(v[0])
    } else {
        quoted_list(v.drop_last()) + ", "@ + quoted(v.last())
    }
}

/// The text of an answer.
pub open spec fn response_debug(m: ResponseModel) -> Seq<char> {
    match m {
        ResponseModel::Challenge { nonce, timestamp } => "Challenge { nonce: ["@ + byte_list(nonce)
            + "], timestamp: "@ + crate::text::decimal(timestamp as nat) + " }"@,
        ResponseModel::AccessGranted { roles } => "AccessGranted { roles: ["@ + quoted_list(roles)
            + "] }"@,
        ResponseModel::Denied => "Denied"@,
    }
}

/// The text of an answer.
pub fn response_text(response: &NuxResponse) -> (r: String)
    ensures
        r@ == response_debug(response@),
{
    match response {
        NuxResponse::Challenge { nonce, timestamp } => {
            let mut out = "Challenge { nonce: [".to_owned();
            let ghost head = out@;
            let mut i: usize = 0;
            assert(head + byte_list(nonce@.take(0)) =~= head);
            while i < 32
                invariant
                    i <= 32,
                    out@ == head + byte_list(nonce@.take(i as int)),
                decreases 32 - i,
            {
                let ghost done = nonce@.take(i as int);
                let ghost next = nonce@.take(i + 1);
                assert(next.drop_last() =~= done);
                assert(next.last() == nonce@[i as int]);
                if i > 0 {
                    out.append(", ");
                }
                push_decimal(&mut out, nonce[i] as u64);
                assert(out@ =~= head + byte_list(next));
                i += 1;
            }
            assert(nonce@.take(32) =~= nonce@);
            out.append("], timestamp: ");
            push_decimal(&mut out, *timestamp);
            out.append(" }");
            assert(out@ =~= response_debug(response@));
            out
        },
        NuxResponse::AccessGranted { roles } => {
            let mut out = "AccessGranted { roles: [".to_owned();
            let ghost head = out@;
            let ghost all = crate::protocol::texts(roles@);
            let mut i: usize = 0;
            assert(head + quoted_list(all.take(0)) =~= head);
            while i < roles.len()
                invariant
                    i <= roles@.len(),
                    all == crate::protocol::texts(roles@),
                    out@ == head + quoted_list(all.take(i as int)),
                decreases roles@.len() - i,
            {
                let ghost next = all.take(i + 1);
                assert(next.drop_last() =~= all.take(i as int));
                assert(next.last() == roles@[i as int]@);
                if i > 0 {
                    out.append(", ");
                }
                let item = quote(roles[i].as_str());
                out.append(item.as_str());
                assert(out@ =~= head + quoted_list(next));
                i += 1;
            }
            assert(all.take(roles@.len() as int) =~= all);
            out.append("] }");
            assert(out@ =~= response_debug(response@));
            out
        },
        NuxResponse::Denied => "Denied".to_owned(),
    }
}

/// A list is written one item after the other, with a comma and a space between two items.
pub proof fn lists_are_written_item_by_item(
    bytes: Seq<u8>,
    byte: u8,
    texts: Seq<Seq<char>>,
    text: Seq<char>,
)
    ensures
        byte_list(Seq::<u8>::empty()).len() == 0,
        byte_list(seq![byte]) == crate::text::decimal(byte as nat),
        bytes.len() > 0 ==> byte_list(bytes.push(byte)) == byte_list(bytes) + ", "@
            + crate::text::decimal(byte as nat),
        quoted_list(Seq::<Seq<char>>::empty()).len() == 0,
        quoted_list(seq![text]) == quoted(text),
        texts.len() > 0 ==> quoted_list(texts.push(text)) == quoted_list(texts) + ", "@ + quoted(
            text,
        ),
{
    assert(bytes.push(byte).drop_last() =~= bytes);
    assert(texts.push(text).drop_last() =~= texts);
}

/// The text of a response gives its kind and all it holds.
pub proof fn response_text_tells_everything(nonce: Seq<u8>, timestamp: u64, roles: Seq<Seq<char>>)
    ensures
        response_debug(ResponseModel::Challenge { nonce, timestamp }) == "Challenge { nonce: ["@
            + byte_list(nonce) + "], timestamp: "@ + crate::text::decimal(timestamp as nat) + " }"@,
        response_debug(ResponseModel::AccessGranted { roles }) == "AccessGranted { roles: ["@
            + quoted_list(roles) + "] }"@,
        response_debug(ResponseModel::Denied) == "Denied"@,
{
}

} // verus!
