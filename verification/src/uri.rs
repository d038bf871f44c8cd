//! Mailto URIs: the `url` crate parses the URI; what the query parameters
//! mean for a fresh composition — recipient from the path, carbon copies
//! accumulating, subject and body last-wins — is the library's own verified
//! logic, working on the plain pairs the parser hands back.

use crate::account::Account;
use crate::msg::Body;
use crate::msg::Headers;
use crate::msg::Msg;
use crate::msg::TransferEncoding;
use url::Url;
use vstd::prelude::*;

verus! {

#[verifier::external_type_specification]
#[verifier::external_body]
pub struct ExUrl(Url);

/// Relies on `url::Url::path`: the percent-encoded path part of the URI —
/// for a mailto URI, the recipient address. What it holds for a given URI
/// is not modelled; the composition logic takes it as a plain value.
#[verifier::external_body]
pub fn url_path(u: &Url) -> (r: String) {
    u.path().to_string()
}

/// Relies on `url::Url::query_pairs`: the query of the URI parsed as
/// form-urlencoded key/value pairs, in order. What it holds for a given URI
/// is not modelled; the composition logic takes the pairs as plain values.
#[verifier::external_body]
pub fn url_query_pairs(u: &Url) -> (r: Vec<(String, String)>) {
    u.query_pairs().map(|(k, v)| (k.into_owned(), v.into_owned())).collect()
}

/// The pairs as sequences of characters.
pub open spec fn spec_pairs_view(v: Seq<(String, String)>) -> Seq<(Seq<char>, Seq<char>)> {
    v.map_values(|p: (String, String)| (p.0@, p.1@))
}

/// The values carried by `key`, in order.
pub open spec fn spec_values_of(
    pairs: Seq<(Seq<char>, Seq<char>)>,
    key: Seq<char>,
) -> Seq<Seq<char>>
    decreases pairs.len(),
{
    if pairs.len() == 0 {
        Seq::empty()
    } else {
        let rest = spec_values_of(pairs.drop_last(), key);
        if pairs.last().0 == key {
            rest.push(pairs.last().1)
        } else {
            rest
        }
    }
}

/// The last value carried by `key`, empty when `key` never occurs.
pub open spec fn spec_last_value(pairs: Seq<(Seq<char>, Seq<char>)>, key: Seq<char>) -> Seq<char>
    decreases pairs.len(),
{
    if pairs.len() == 0 {
        Seq::empty()
    } else if pairs.last().0 == key {
        pairs.last().1
    } else {
        spec_last_value(pairs.drop_last(), key)
    }
}

/// The message a mailto URI with path `path` and query pairs `pairs`
/// composes for `account`: the path is the recipient, "cc" and "bcc"
/// values accumulate, the last "subject" and "body" values win, other keys
/// are ignored; the sender, the signature and the wire encoding come from
/// the account.
pub open spec fn spec_mailto_msg(
    path: Seq<char>,
    pairs: Seq<(Seq<char>, Seq<char>)>,
    account: Account,
) -> crate::msg::MsgModel {
    crate::msg::MsgModel {
        headers: crate::msg::HeadersModel {
            from: seq![crate::account::spec_address(account.display_name@, account.email@)],
            to: seq![path],
            cc: Some(spec_values_of(pairs, "cc"@)),
            bcc: Some(spec_values_of(pairs, "bcc"@)),
            in_reply_to: None,
            subject: Some(spec_last_value(pairs, "subject"@)),
            signature: Some(account.signature@),
            encoding: TransferEncoding::Base64,
        },
        body: spec_last_value(pairs, "body"@),
        attachments: Seq::empty(),
        flags: Set::empty(),
        raw: Seq::empty(),
    }
}

/// Compose the fresh message a mailto URI describes, from the path and
/// query pairs its parse produced.
pub fn compose_from_mailto(path: &str, pairs: &Vec<(String, String)>, account: &Account) -> (m:
    Msg)
    ensures
        m@ == spec_mailto_msg(path@, spec_pairs_view(pairs@), *account),
{
    proof {
        reveal_strlit("cc");
        reveal_strlit("bcc");
        reveal_strlit("subject");
        reveal_strlit("body");
    }
    let ghost pv = spec_pairs_view(pairs@);
    let mut cc: Vec<String> = Vec::new();
    let mut bcc: Vec<String> = Vec::new();
    let mut subject = String::new();
    let mut body = String::new();
    let mut i: usize = 0;
    proof {
        assert(pv.take(0) =~= Seq::<(Seq<char>, Seq<char>)>::empty());
        assert(cc.deep_view() =~= spec_values_of(pv.take(0), "cc"@));
        assert(bcc.deep_view() =~= spec_values_of(pv.take(0), "bcc"@));
    }
    while i < pairs.len()
        invariant
            i <= pairs@.len(),
            pv == spec_pairs_view(pairs@),
            pv.len() == pairs@.len(),
            forall|j: int|
                0 <= j < pairs@.len() ==> pv[j] == (#[trigger] pairs@[j].0@, pairs@[j].1@),
            cc.deep_view() =~= spec_values_of(pv.take(i as int), "cc"@),
            bcc.deep_view() =~= spec_values_of(pv.take(i as int), "bcc"@),
            subject@ == spec_last_value(pv.take(i as int), "subject"@),
            body@ == spec_last_value(pv.take(i as int), "body"@),
        decreases pairs@.len() - i,
    {
        let ghost ccdv = cc.deep_view();
        let ghost bccdv = bcc.deep_view();
        proof {
            reveal_strlit("cc");
            reveal_strlit("bcc");
            reveal_strlit("subject");
            reveal_strlit("body");
            broadcast use vstd::string::group_string_axioms;
            // the four keys are pairwise distinct, which their lengths
            // almost settle on their own
            assert("cc"@.len() == 2);
            assert("bcc"@.len() == 3);
            assert("subject"@.len() == 7);
            assert("body"@.len() == 4);
            assert("subject"@ != "body"@);
            assert(pv.take(i + 1 as int).drop_last() =~= pv.take(i as int));
            assert(pv.take(i + 1 as int).last() == pv[i as int]);
        }
        let (key, val) = &pairs[i];
        if *key == String::from_str("cc") {
            cc.push(val.clone());
            proof {
                assert(cc.deep_view() =~= ccdv.push(pv[i as int].1));
            }
        } else if *key == String::from_str("bcc") {
            bcc.push(val.clone());
            proof {
                assert(bcc.deep_view() =~= bccdv.push(pv[i as int].1));
            }
        } else if *key == String::from_str("subject") {
            subject = val.clone();
        } else if *key == String::from_str("body") {
            body = val.clone();
        }
        i = i + 1;
    }
    proof {
        assert(pv.take(pairs@.len() as int) =~= pv);
    }
    let mut to: Vec<String> = Vec::new();
    to.push(path.to_owned());
    let mut from: Vec<String> = Vec::new();
    from.push(account.address());
    let headers = Headers {
        from,
        to,
        cc: Some(cc),
        bcc: Some(bcc),
        in_reply_to: None,
        subject: Some(subject),
        signature: Some(account.signature.clone()),
        encoding: TransferEncoding::Base64,
    };
    let m = Msg {
        headers,
        body: Body { text: body },
        attachments: Vec::new(),
        flags: crate::flag::Flags::new(),
        raw: String::new(),
    };
    proof {
        assert(m@ =~= spec_mailto_msg(path@, pv, *account));
    }
    m
}

} // verus!
