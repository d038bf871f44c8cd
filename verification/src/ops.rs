//! The mailbox operations: single-pass, non-interactive procedures over one
//! mail-store session (and, where delivery is involved, one mail-transport
//! session), each releasing the session on every exit path — a collaborator
//! failure is logged out before it propagates.
//!
//! The ordering invariants live in the contracts. The single most
//! safety-critical one is Move's: the append into the target mailbox comes
//! strictly before the delete from the source, so a failed append leaves the
//! source message untouched and still fetchable.

use crate::account::Account;
use crate::compose::CompositionOutcome;
use crate::compose::ScratchDraft;
use crate::compose::UiScript;
use crate::compose::msg_interaction;
use crate::compose::spec_from_edit;
use crate::compose::spec_outcome_effect;
use crate::error::Error;
use crate::flag::Flag;
use crate::flag::Flags;
use crate::mbox::Mbox;
use crate::msg::Attachment;
use crate::msg::AttachmentModel;
use crate::msg::Headers;
use crate::msg::HeadersModel;
use crate::msg::Msg;
use crate::msg::MsgModel;
use crate::msg::spec_forward_headers;
use crate::msg::spec_parse;
use crate::msg::spec_parse_ok;
use crate::msg::spec_render;
use crate::msg::spec_reply_headers;
use crate::msg::TransferEncoding;
use crate::store::MailStore;
use crate::store::MailTransport;
use crate::store::MsgSummary;
use crate::store::MsgSummaryModel;
use crate::store::Output;
use crate::store::spec_add_flags;
use crate::store::spec_box_push;
use crate::store::spec_purge;
use crate::store::StoreRequest;
use crate::store::spec_summaries_of;
use crate::textutil::join;
use crate::textutil::spec_join;
use crate::textutil::spec_lines;
use crate::textutil::spec_to_crlf;
use crate::textutil::split_lines;
use crate::textutil::spec_decimal;
use crate::textutil::to_crlf;
use crate::textutil::usize_to_string;
use crate::uri::compose_from_mailto;
use crate::uri::url_path;
use crate::uri::url_query_pairs;
use url::Url;
use vstd::prelude::*;
use vstd::string::StringExecFns;

verus! {

/// `m` with the seen flag set, as every append of a completed message
/// carries it.
pub open spec fn spec_seen(m: MsgModel) -> MsgModel {
    MsgModel { flags: m.flags.insert(Flag::Seen), ..m }
}

/// The seen-plus-deleted flag pair a soft delete sets before a purge.
pub open spec fn spec_delete_flags() -> Set<Flag> {
    set![Flag::Seen, Flag::Deleted]
}

/// Mark the message seen and append a copy of it into the target mailbox.
/// Non-destructive: the selected mailbox is never touched, so the message
/// stays fetchable at its source with unchanged content.
pub fn copy<S: MailStore, O: Output>(
    uid: &str,
    mbox: Option<&str>,
    output: &mut O,
    imap: &mut S,
) -> (r: Result<(), Error>)
    requires
        !old(imap).released(),
    ensures
        final(imap).released(),
        final(imap).st().cur == old(imap).st().cur,
        mbox is None ==> r == Err::<(), Error>(Error::NoTargetMbox) && final(imap).st() == old(imap).st(),
        r == Err::<(), Error>(Error::NoTargetMbox) ==> mbox is None,
        r is Ok ==> ({
            &&& mbox is Some
            &&& old(imap).st().cur.dom().contains(uid@)
            &&& final(imap).st().boxes == spec_box_push(
                old(imap).st().boxes,
                mbox->Some_0@,
                spec_seen(old(imap).st().cur[uid@]),
            )
            &&& final(output).lines() == old(output).lines().push(
                "Message "@ + uid@ + " successfully copied to folder "@ + mbox->Some_0@,
            )
        }),
        r is Err ==> (final(imap).st().boxes == old(imap).st().boxes || (mbox is Some && old(imap).st().cur.dom().contains(uid@) && final(imap).st().boxes == spec_box_push(
            old(imap).st().boxes,
            mbox->Some_0@,
            spec_seen(old(imap).st().cur[uid@]),
        ))),
{
    let target = match Mbox::try_from_opt(mbox) {
        Ok(t) => t,
        Err(e) => {
            let _ = imap.logout();
            return Err(e);
        },
    };
    let mut m = match imap.get_msg(uid) {
        Ok(v) => v,
        Err(e) => {
            let _ = imap.logout();
            return Err(e);
        },
    };
    // the copy placed in the new mailbox should not show up as unread noise
    m.flags.insert(Flag::Seen);
    proof {
        assert(m@ =~= spec_seen(old(imap).st().cur[uid@]));
    }
    match imap.append_msg(&target, &m) {
        Ok(_) => {},
        Err(e) => {
            let _ = imap.logout();
            return Err(e);
        },
    }
    let mut note = String::from_str("Message ");
    note.append(uid);
    note.append(" successfully copied to folder ");
    note.append(target.name.as_str());
    proof {
        assert(note@ =~= "Message "@ + uid@ + " successfully copied to folder "@
            + mbox->Some_0@);
    }
    match output.print(note.as_str()) {
        Ok(_) => {},
        Err(e) => {
            let _ = imap.logout();
            return Err(e);
        },
    }
    imap.logout()?;
    Ok(())
}

/// Mark the message seen, append a copy into the target mailbox, and only
/// then soft-delete and purge it from the source. Reversing the order would
/// permanently lose the message if the append failed after a premature
/// delete; the contract rules that out: the source mailbox changes only
/// after the copy stands in the target.
pub fn move_<S: MailStore, O: Output>(
    uid: &str,
    mbox: Option<&str>,
    output: &mut O,
    imap: &mut S,
) -> (r: Result<(), Error>)
    requires
        !old(imap).released(),
    ensures
        // append-to-target strictly before delete-from-source
        final(imap).st().cur != old(imap).st().cur ==> (mbox is Some && old(imap).st().cur.dom().contains(uid@) && final(imap).st().boxes == spec_box_push(
            old(imap).st().boxes,
            mbox->Some_0@,
            spec_seen(old(imap).st().cur[uid@]),
        )),
        final(imap).released(),
        mbox is None ==> r == Err::<(), Error>(Error::NoTargetMbox) && final(imap).st() == old(imap).st(),
        r == Err::<(), Error>(Error::NoTargetMbox) ==> mbox is None,
        r is Ok ==> ({
            &&& mbox is Some
            &&& old(imap).st().cur.dom().contains(uid@)
            &&& final(imap).st().boxes == spec_box_push(
                old(imap).st().boxes,
                mbox->Some_0@,
                spec_seen(old(imap).st().cur[uid@]),
            )
            &&& final(imap).st().cur == spec_purge(
                spec_add_flags(old(imap).st().cur, uid@, spec_delete_flags()),
            )
            &&& !final(imap).st().cur.dom().contains(uid@)
            &&& final(output).lines() == old(output).lines().push(
                "Message "@ + uid@ + " successfully moved to folder "@ + mbox->Some_0@,
            )
        }),
        r is Err ==> ({
            ||| (final(imap).st().boxes == old(imap).st().boxes && final(imap).st().cur == old(imap).st().cur)
            ||| ({
                &&& mbox is Some
                &&& old(imap).st().cur.dom().contains(uid@)
                &&& final(imap).st().boxes == spec_box_push(
                    old(imap).st().boxes,
                    mbox->Some_0@,
                    spec_seen(old(imap).st().cur[uid@]),
                )
                &&& ({
                    ||| final(imap).st().cur == old(imap).st().cur
                    ||| final(imap).st().cur == spec_add_flags(
                        old(imap).st().cur,
                        uid@,
                        spec_delete_flags(),
                    )
                    ||| final(imap).st().cur == spec_purge(
                        spec_add_flags(old(imap).st().cur, uid@, spec_delete_flags()),
                    )
                })
            })
        }),
{
    let target = match Mbox::try_from_opt(mbox) {
        Ok(t) => t,
        Err(e) => {
            let _ = imap.logout();
            return Err(e);
        },
    };
    let mut m = match imap.get_msg(uid) {
        Ok(v) => v,
        Err(e) => {
            let _ = imap.logout();
            return Err(e);
        },
    };
    // create the copy in the target mailbox first
    m.flags.insert(Flag::Seen);
    proof {
        assert(m@ =~= spec_seen(old(imap).st().cur[uid@]));
    }
    match imap.append_msg(&target, &m) {
        Ok(_) => {},
        Err(e) => {
            let _ = imap.logout();
            return Err(e);
        },
    }
    let mut note = String::from_str("Message ");
    note.append(uid);
    note.append(" successfully moved to folder ");
    note.append(target.name.as_str());
    proof {
        assert(note@ =~= "Message "@ + uid@ + " successfully moved to folder "@
            + mbox->Some_0@);
    }
    match output.print(note.as_str()) {
        Ok(_) => {},
        Err(e) => {
            let _ = imap.logout();
            return Err(e);
        },
    }
    // only now delete the original from the source mailbox
    let flags = Flags::from_vec(vec![Flag::Seen, Flag::Deleted]);
    proof {
        assert(flags@ =~= spec_delete_flags());
    }
    match imap.add_flags(uid, &flags) {
        Ok(_) => {},
        Err(e) => {
            let _ = imap.logout();
            return Err(e);
        },
    }
    match imap.expunge() {
        Ok(_) => {},
        Err(e) => {
            let _ = imap.logout();
            return Err(e);
        },
    }
    proof {
        assert(!spec_purge(
            spec_add_flags(old(imap).st().cur, uid@, spec_delete_flags()),
        ).dom().contains(uid@));
    }
    imap.logout()?;
    Ok(())
}

/// Soft-delete then purge: the message observably carries seen and deleted
/// before the purge is issued, and is no longer listable afterwards.
pub fn delete<S: MailStore, O: Output>(uid: &str, output: &mut O, imap: &mut S) -> (r: Result<
    (),
    Error,
>)
    requires
        !old(imap).released(),
    ensures
        final(imap).st().boxes == old(imap).st().boxes,
        final(imap).released(),
        r is Ok ==> ({
            &&& old(imap).st().cur.dom().contains(uid@)
            &&& final(imap).st().cur == spec_purge(
                spec_add_flags(old(imap).st().cur, uid@, spec_delete_flags()),
            )
            &&& !final(imap).st().cur.dom().contains(uid@)
            &&& final(output).lines() == old(output).lines().push(
                "Message "@ + uid@ + " successfully deleted"@,
            )
        }),
        r is Err ==> ({
            ||| final(imap).st().cur == old(imap).st().cur
            ||| final(imap).st().cur == spec_add_flags(
                old(imap).st().cur,
                uid@,
                spec_delete_flags(),
            )
            ||| final(imap).st().cur == spec_purge(
                spec_add_flags(old(imap).st().cur, uid@, spec_delete_flags()),
            )
        }),
{
    let flags = Flags::from_vec(vec![Flag::Seen, Flag::Deleted]);
    proof {
        assert(flags@ =~= spec_delete_flags());
    }
    match imap.add_flags(uid, &flags) {
        Ok(_) => {},
        Err(e) => {
            let _ = imap.logout();
            return Err(e);
        },
    }
    match imap.expunge() {
        Ok(_) => {},
        Err(e) => {
            let _ = imap.logout();
            return Err(e);
        },
    }
    proof {
        assert(!spec_purge(
            spec_add_flags(old(imap).st().cur, uid@, spec_delete_flags()),
        ).dom().contains(uid@));
    }
    let mut note = String::from_str("Message ");
    note.append(uid);
    note.append(" successfully deleted");
    proof {
        assert(note@ =~= "Message "@ + uid@ + " successfully deleted"@);
    }
    match output.print(note.as_str()) {
        Ok(_) => {},
        Err(e) => {
            let _ = imap.logout();
            return Err(e);
        },
    }
    imap.logout()?;
    Ok(())
}

/// Parse raw message text, mark it seen, and append it into the target
/// mailbox. A missing target is a resolution error; text whose header block
/// is malformed is rejected before anything is appended.
pub fn save<S: MailStore>(mbox: Option<&str>, msg: &str, imap: &mut S) -> (r: Result<(), Error>)
    requires
        !old(imap).released(),
    ensures
        final(imap).st().cur == old(imap).st().cur,
        final(imap).released(),
        mbox is None ==> r == Err::<(), Error>(Error::NoTargetMbox) && final(imap).st() == old(imap).st(),
        r == Err::<(), Error>(Error::NoTargetMbox) ==> mbox is None,
        mbox is Some && !spec_parse_ok(msg@) ==> r == Err::<(), Error>(Error::MalformedMessage)
            && final(imap).st() == old(imap).st(),
        r == Err::<(), Error>(Error::MalformedMessage) ==> (mbox is Some && !spec_parse_ok(msg@)),
        r is Ok ==> ({
            &&& mbox is Some
            &&& spec_parse_ok(msg@)
            &&& final(imap).st().boxes == spec_box_push(
                old(imap).st().boxes,
                mbox->Some_0@,
                spec_seen(spec_parse(msg@)),
            )
        }),
        r is Err ==> (final(imap).st().boxes == old(imap).st().boxes || (mbox is Some
            && spec_parse_ok(msg@) && final(imap).st().boxes == spec_box_push(
            old(imap).st().boxes,
            mbox->Some_0@,
            spec_seen(spec_parse(msg@)),
        ))),
{
    let target = match Mbox::try_from_opt(mbox) {
        Ok(t) => t,
        Err(e) => {
            let _ = imap.logout();
            return Err(e);
        },
    };
    let mut m = match Msg::parse(msg) {
        Ok(v) => v,
        Err(e) => {
            let _ = imap.logout();
            return Err(e);
        },
    };
    m.flags.insert(Flag::Seen);
    proof {
        assert(m@ =~= spec_seen(spec_parse(msg@)));
    }
    match imap.append_msg(&target, &m) {
        Ok(_) => {},
        Err(e) => {
            let _ = imap.logout();
            return Err(e);
        },
    }
    imap.logout()?;
    Ok(())
}

/// The text a direct send works on: literal input is normalised to
/// transport line endings; piped input is reassembled from its lines with
/// transport line endings.
pub open spec fn spec_send_text(input: Seq<char>, literal: bool) -> Seq<char> {
    if literal {
        spec_to_crlf(input)
    } else {
        spec_join(spec_lines(input), "\r\n"@)
    }
}

/// Send raw message text directly: normalise it, parse it, deliver the
/// sendable form, and only after the transport accepted it mark the message
/// seen and append it into "Sent". Whether the input counts as literal text
/// is decided by the terminal and the output sink's machine mode.
pub fn send<S: MailStore, T: MailTransport, O: Output>(
    msg: &str,
    stdin_is_tty: bool,
    output: &O,
    imap: &mut S,
    smtp: &mut T,
) -> (r: Result<(), Error>)
    requires
        !old(imap).released(),
    ensures
        final(imap).st().cur == old(imap).st().cur,
        final(imap).released(),
        ({
            let text = spec_send_text(msg@, stdin_is_tty || output.json_mode());
            &&& (!spec_parse_ok(text) ==> r == Err::<(), Error>(Error::MalformedMessage) && final(imap).st() == old(imap).st() && final(smtp).delivered() == old(smtp).delivered())
            &&& (r == Err::<(), Error>(Error::MalformedMessage) ==> !spec_parse_ok(text))
            &&& (r == Err::<(), Error>(Error::MissingSender) ==> (spec_parse_ok(text)
                && spec_parse(text).headers.from.len() == 0))
            &&& (r == Err::<(), Error>(Error::MissingRecipient) ==> (spec_parse_ok(text)
                && spec_parse(text).headers.from.len() > 0 && spec_parse(text).headers.to.len()
                == 0))
            &&& (spec_parse_ok(text) && spec_parse(text).headers.from.len() == 0 ==> r == Err::<
                (),
                Error,
            >(Error::MissingSender) && final(imap).st() == old(imap).st() && final(smtp).delivered() == old(smtp).delivered())
            &&& (spec_parse_ok(text) && spec_parse(text).headers.from.len() > 0 && spec_parse(
                text,
            ).headers.to.len() == 0 ==> r == Err::<(), Error>(Error::MissingRecipient) && final(imap).st() == old(imap).st() && final(smtp).delivered() == old(smtp).delivered())
            &&& (r is Ok ==> ({
                &&& spec_parse_ok(text)
                &&& spec_parse(text).headers.from.len() > 0
                &&& spec_parse(text).headers.to.len() > 0
                &&& final(smtp).delivered() == old(smtp).delivered().push(
                    spec_render(spec_parse(text)),
                )
                &&& final(imap).st().boxes == spec_box_push(
                    old(imap).st().boxes,
                    "Sent"@,
                    spec_seen(spec_parse(text)),
                )
            }))
            &&& (r is Err ==> ({
                ||| (final(smtp).delivered() == old(smtp).delivered() && final(imap).st().boxes
                    == old(imap).st().boxes)
                ||| (final(smtp).delivered() == old(smtp).delivered().push(
                    spec_render(spec_parse(text)),
                ) && (final(imap).st().boxes == old(imap).st().boxes || final(imap).st().boxes
                    == spec_box_push(old(imap).st().boxes, "Sent"@, spec_seen(spec_parse(text)))))
            }))
        }),
{
    let literal = stdin_is_tty || output.is_json();
    let text = if literal {
        to_crlf(msg)
    } else {
        let lines = split_lines(msg);
        join(&lines, "\r\n")
    };
    let mut m = match Msg::parse(text.as_str()) {
        Ok(v) => v,
        Err(e) => {
            let _ = imap.logout();
            return Err(e);
        },
    };
    let sendable = match m.to_sendable_msg() {
        Ok(v) => v,
        Err(e) => {
            let _ = imap.logout();
            return Err(e);
        },
    };
    match smtp.send(&sendable) {
        Ok(_) => {},
        Err(e) => {
            let _ = imap.logout();
            return Err(e);
        },
    }
    // only after the transport accepted it does the message count as sent
    m.flags.insert(Flag::Seen);
    proof {
        assert(m@ =~= spec_seen(spec_parse(text@)));
    }
    let mbox = Mbox::from_name("Sent");
    match imap.append_msg(&mbox, &m) {
        Ok(_) => {},
        Err(e) => {
            let _ = imap.logout();
            return Err(e);
        },
    }
    imap.logout()?;
    Ok(())
}

/// The page size an operation resolves: the given one, or the account's
/// default when none is given.
pub open spec fn spec_resolved_page_size(page_size: Option<usize>, account_default: usize) -> usize {
    match page_size {
        Some(s) => s,
        None => account_default,
    }
}

/// The line a listing prints for one summary.
pub open spec fn spec_summary_line(s: MsgSummaryModel) -> Seq<char> {
    s.uid + ": "@ + (match s.subject {
        Some(t) => t,
        None => Seq::empty(),
    })
}

/// The page a listing prints: one line per summary.
pub open spec fn spec_render_summaries(v: Seq<MsgSummaryModel>) -> Seq<char> {
    spec_join(v.map_values(|s: MsgSummaryModel| spec_summary_line(s)), "\n"@)
}

/// Render one page of summaries.
fn render_summaries(v: &Vec<MsgSummary>) -> (r: String)
    ensures
        r@ == spec_render_summaries(v.deep_view()),
{
    let mut parts: Vec<String> = Vec::new();
    let mut i: usize = 0;
    while i < v.len()
        invariant
            i <= v@.len(),
            v.deep_view().len() == v@.len(),
            forall|j: int| 0 <= j < v@.len() ==> v.deep_view()[j] == #[trigger] v@[j]@,
            parts.deep_view().len() == i,
            forall|j: int|
                0 <= j < i ==> parts.deep_view()[j] == spec_summary_line(
                    #[trigger] v.deep_view()[j],
                ),
        decreases v@.len() - i,
    {
        let s = &v[i];
        let mut line = s.uid.clone();
        line.append(": ");
        match &s.subject {
            Some(t) => {
                line.append(t.as_str());
            },
            None => {},
        }
        let ghost pdv = parts.deep_view();
        parts.push(line);
        proof {
            assert(parts.deep_view() =~= pdv.push(line@));
            assert(line@ == spec_summary_line(v.deep_view()[i as int]));
        }
        i = i + 1;
    }
    proof {
        assert(parts.deep_view() =~= v.deep_view().map_values(
            |s: MsgSummaryModel| spec_summary_line(s),
        ));
    }
    join(&parts, "\n")
}

/// Fetch one page of message summaries and present it; the page size falls
/// back to the account's default when none is given.
pub fn list<S: MailStore, O: Output>(
    page_size: Option<usize>,
    page: usize,
    account: &Account,
    output: &mut O,
    imap: &mut S,
) -> (r: Result<(), Error>)
    requires
        !old(imap).released(),
    ensures
        final(imap).st() == old(imap).st(),
        final(imap).released(),
        final(imap).requests() == old(imap).requests().push(
            StoreRequest::List {
                size: spec_resolved_page_size(page_size, account.default_page_size),
                page: page,
            },
        ),
        r is Ok ==> exists|v: Seq<MsgSummaryModel>|
            #[trigger] spec_summaries_of(v, old(imap).st().cur) && final(output).lines() == old(output).lines().push(spec_render_summaries(v)),
{
    let size = match page_size {
        Some(s) => s,
        None => account.default_page_size,
    };
    let msgs = match imap.list_msgs(size, page) {
        Ok(v) => v,
        Err(e) => {
            let _ = imap.logout();
            return Err(e);
        },
    };
    let rendered = render_summaries(&msgs);
    match output.print(rendered.as_str()) {
        Ok(_) => {},
        Err(e) => {
            let _ = imap.logout();
            return Err(e);
        },
    }
    imap.logout()?;
    proof {
        assert(spec_summaries_of(msgs.deep_view(), old(imap).st().cur) && final(output).lines()
            == old(output).lines().push(spec_render_summaries(msgs.deep_view())));
    }
    Ok(())
}

/// Fetch one page of summaries of the messages matching `query` and present
/// it; the page size falls back to the account's default.
pub fn search<S: MailStore, O: Output>(
    page_size: Option<usize>,
    page: usize,
    query: String,
    account: &Account,
    output: &mut O,
    imap: &mut S,
) -> (r: Result<(), Error>)
    requires
        !old(imap).released(),
    ensures
        final(imap).st() == old(imap).st(),
        final(imap).released(),
        final(imap).requests() == old(imap).requests().push(
            StoreRequest::Search {
                query: query@,
                size: spec_resolved_page_size(page_size, account.default_page_size),
                page: page,
            },
        ),
        r is Ok ==> exists|v: Seq<MsgSummaryModel>|
            #[trigger] spec_summaries_of(v, old(imap).st().cur) && final(output).lines() == old(output).lines().push(spec_render_summaries(v)),
{
    let size = match page_size {
        Some(s) => s,
        None => account.default_page_size,
    };
    let msgs = match imap.search_msgs(query.as_str(), size, page) {
        Ok(v) => v,
        Err(e) => {
            let _ = imap.logout();
            return Err(e);
        },
    };
    let rendered = render_summaries(&msgs);
    match output.print(rendered.as_str()) {
        Ok(_) => {},
        Err(e) => {
            let _ = imap.logout();
            return Err(e);
        },
    }
    imap.logout()?;
    proof {
        assert(spec_summaries_of(msgs.deep_view(), old(imap).st().cur) && final(output).lines()
            == old(output).lines().push(spec_render_summaries(msgs.deep_view())));
    }
    Ok(())
}

/// Fetch one message and present it: its raw source, or its rendered form.
pub fn read<S: MailStore, O: Output>(
    uid: &str,
    _mime: String,
    raw: bool,
    output: &mut O,
    imap: &mut S,
) -> (r: Result<(), Error>)
    requires
        !old(imap).released(),
    ensures
        final(imap).st() == old(imap).st(),
        final(imap).released(),
        r is Ok ==> ({
            &&& old(imap).st().cur.dom().contains(uid@)
            &&& final(output).lines() == old(output).lines().push(
                if raw {
                    old(imap).st().cur[uid@].raw
                } else {
                    spec_render(old(imap).st().cur[uid@])
                },
            )
        }),
{
    let m = match imap.get_msg(uid) {
        Ok(v) => v,
        Err(e) => {
            let _ = imap.logout();
            return Err(e);
        },
    };
    let line = if raw {
        m.get_raw_as_string()
    } else {
        m.render()
    };
    match output.print(line.as_str()) {
        Ok(_) => {},
        Err(e) => {
            let _ = imap.logout();
            return Err(e);
        },
    }
    imap.logout()?;
    Ok(())
}

/// A copy of each attachment, element for element.
fn clone_attachments(v: &Vec<Attachment>) -> (r: Vec<Attachment>)
    ensures
        r@.len() == v@.len(),
        forall|j: int| 0 <= j < v@.len() ==> #[trigger] r@[j]@ == v@[j]@,
{
    let mut r: Vec<Attachment> = Vec::new();
    let mut i: usize = 0;
    while i < v.len()
        invariant
            i <= v@.len(),
            r@.len() == i,
            forall|j: int| 0 <= j < i ==> #[trigger] r@[j]@ == v@[j]@,
        decreases v@.len() - i,
    {
        let a = &v[i];
        r.push(Attachment { filename: a.filename.clone(), body_raw: a.body_raw.clone() });
        i = i + 1;
    }
    r
}

/// Fetch one message and hand back its attachments for the surrounding
/// program to write into the account's downloads directory, reporting the
/// count. The file writes themselves are the caller's: they are local I/O.
pub fn attachments<S: MailStore, O: Output>(
    uid: &str,
    _account: &Account,
    output: &mut O,
    imap: &mut S,
) -> (r: Result<Vec<Attachment>, Error>)
    requires
        !old(imap).released(),
    ensures
        final(imap).st() == old(imap).st(),
        final(imap).released(),
        r matches Ok(v) ==> ({
            &&& old(imap).st().cur.dom().contains(uid@)
            &&& v@.map_values(|a: Attachment| a@) == old(imap).st().cur[uid@].attachments
            &&& final(output).lines() == old(output).lines().push(
                spec_decimal(v@.len() as int) + " attachment(s) successfully downloaded"@,
            )
        }),
{
    let m = match imap.get_msg(uid) {
        Ok(v) => v,
        Err(e) => {
            let _ = imap.logout();
            return Err(e);
        },
    };
    let atts = clone_attachments(&m.attachments);
    proof {
        assert(atts@.map_values(|a: Attachment| a@) =~= old(imap).st().cur[uid@].attachments);
    }
    let mut note = usize_to_string(atts.len());
    note.append(" attachment(s) successfully downloaded");
    match output.print(note.as_str()) {
        Ok(_) => {},
        Err(e) => {
            let _ = imap.logout();
            return Err(e);
        },
    }
    imap.logout()?;
    Ok(atts)
}

/// Fetch a message, turn it into a forwarding for `account`, attach the
/// already-loaded extra files, and run the composition state machine over
/// the transcript. Whatever outcome is reached, the message the effect
/// speaks of carries the forwarding header block and the combined
/// attachments.
pub fn forward<S: MailStore, T: MailTransport, O: Output>(
    uid: &str,
    attachments_to_add: Vec<Attachment>,
    account: &Account,
    script: &mut UiScript,
    output: &mut O,
    imap: &mut S,
    smtp: &mut T,
    draft: &mut ScratchDraft,
) -> (r: Result<CompositionOutcome, Error>)
    requires
        !old(imap).released(),
    ensures
        final(imap).st().cur == old(imap).st().cur,
        final(imap).released(),
        r matches Ok(out) ==> ({
            &&& old(imap).st().cur.dom().contains(uid@)
            &&& exists|m: MsgModel|
                {
                    &&& #[trigger] spec_outcome_effect(
                        out,
                        m,
                        old(imap).st().boxes,
                        final(imap).st().boxes,
                        old(smtp).delivered(),
                        final(smtp).delivered(),
                        final(draft)@,
                    )
                    &&& (m.headers == spec_forward_headers(
                        old(imap).st().cur[uid@].headers,
                        crate::account::spec_address(account.display_name@, account.email@),
                        account.signature@,
                    ) || spec_from_edit(old(script).edit_sources(), m.headers, m.body))
                    &&& m.attachments == old(imap).st().cur[uid@].attachments
                        + attachments_to_add@.map_values(|a: Attachment| a@)
                }
        }),
{
    let mut m = match imap.get_msg(uid) {
        Ok(v) => v,
        Err(e) => {
            let _ = imap.logout();
            return Err(e);
        },
    };
    m.change_to_forwarding(account);
    let mut atts = attachments_to_add;
    let ghost addv = atts@.map_values(|a: Attachment| a@);
    let ghost base = m@.attachments;
    let mut i: usize = 0;
    proof {
        assert(m@.attachments =~= base + addv.take(0));
    }
    while i < atts.len()
        invariant
            i <= atts@.len(),
            addv.len() == atts@.len(),
            forall|j: int| 0 <= j < atts@.len() ==> addv[j] == #[trigger] atts@[j]@,
            m@.attachments == base + addv.take(i as int),
            m@.headers == spec_forward_headers(
                old(imap).st().cur[uid@].headers,
                crate::account::spec_address(account.display_name@, account.email@),
                account.signature@,
            ),
            m@.flags == old(imap).st().cur[uid@].flags,
        decreases atts@.len() - i,
    {
        let a = &atts[i];
        let att = Attachment { filename: a.filename.clone(), body_raw: a.body_raw.clone() };
        proof {
            assert(att@.body_raw =~= a@.body_raw);
            assert(att@ =~= addv[i as int]);
        }
        m.add_attachment(att);
        proof {
            assert(addv.take(i + 1 as int) =~= addv.take(i as int).push(addv[i as int]));
            assert(m@.attachments =~= base + addv.take(i + 1 as int));
        }
        i = i + 1;
    }
    proof {
        assert(addv.take(atts@.len() as int) =~= addv);
        assert(m@.attachments == base + addv);
        assert(base == old(imap).st().cur[uid@].attachments);
    }
    let out = match msg_interaction(script, output, &mut m, imap, smtp, draft) {
        Ok(v) => v,
        Err(e) => {
            let _ = imap.logout();
            return Err(e);
        },
    };
    imap.logout()?;
    Ok(out)
}

/// Fetch a message, turn it into a reply (optionally reply-all) for
/// `account`, attach the already-loaded extra files, and run the
/// composition state machine over the transcript.
pub fn reply<S: MailStore, T: MailTransport, O: Output>(
    uid: &str,
    all: bool,
    attachments_to_add: Vec<Attachment>,
    account: &Account,
    script: &mut UiScript,
    output: &mut O,
    imap: &mut S,
    smtp: &mut T,
    draft: &mut ScratchDraft,
) -> (r: Result<CompositionOutcome, Error>)
    requires
        !old(imap).released(),
    ensures
        final(imap).st().cur == old(imap).st().cur,
        final(imap).released(),
        r matches Ok(out) ==> ({
            &&& old(imap).st().cur.dom().contains(uid@)
            &&& exists|m: MsgModel|
                {
                    &&& #[trigger] spec_outcome_effect(
                        out,
                        m,
                        old(imap).st().boxes,
                        final(imap).st().boxes,
                        old(smtp).delivered(),
                        final(smtp).delivered(),
                        final(draft)@,
                    )
                    &&& (m.headers == spec_reply_headers(
                        old(imap).st().cur[uid@].headers,
                        crate::account::spec_address(account.display_name@, account.email@),
                        account.email@,
                        account.signature@,
                        all,
                    ) || spec_from_edit(old(script).edit_sources(), m.headers, m.body))
                    &&& m.attachments == old(imap).st().cur[uid@].attachments
                        + attachments_to_add@.map_values(|a: Attachment| a@)
                }
        }),
{
    let mut m = match imap.get_msg(uid) {
        Ok(v) => v,
        Err(e) => {
            let _ = imap.logout();
            return Err(e);
        },
    };
    m.change_to_reply(account, all);
    let mut atts = attachments_to_add;
    let ghost addv = atts@.map_values(|a: Attachment| a@);
    let ghost base = m@.attachments;
    let mut i: usize = 0;
    proof {
        assert(m@.attachments =~= base + addv.take(0));
    }
    while i < atts.len()
        invariant
            i <= atts@.len(),
            addv.len() == atts@.len(),
            forall|j: int| 0 <= j < atts@.len() ==> addv[j] == #[trigger] atts@[j]@,
            m@.attachments == base + addv.take(i as int),
            m@.headers == spec_reply_headers(
                old(imap).st().cur[uid@].headers,
                crate::account::spec_address(account.display_name@, account.email@),
                account.email@,
                account.signature@,
                all,
            ),
        decreases atts@.len() - i,
    {
        let a = &atts[i];
        let att = Attachment { filename: a.filename.clone(), body_raw: a.body_raw.clone() };
        proof {
            assert(att@.body_raw =~= a@.body_raw);
            assert(att@ =~= addv[i as int]);
        }
        m.add_attachment(att);
        proof {
            assert(addv.take(i + 1 as int) =~= addv.take(i as int).push(addv[i as int]));
            assert(m@.attachments =~= base + addv.take(i + 1 as int));
        }
        i = i + 1;
    }
    proof {
        assert(addv.take(atts@.len() as int) =~= addv);
        assert(m@.attachments == base + addv);
        assert(base == old(imap).st().cur[uid@].attachments);
    }
    let out = match msg_interaction(script, output, &mut m, imap, smtp, draft) {
        Ok(v) => v,
        Err(e) => {
            let _ = imap.logout();
            return Err(e);
        },
    };
    imap.logout()?;
    Ok(out)
}

/// Parse a mailto URI into a fresh message and run the composition state
/// machine over the transcript. The URI's meaning for the fresh message is
/// pinned down by [`compose_from_mailto`]; what a given URI parses to is
/// the `url` crate's business.
pub fn mailto<S: MailStore, T: MailTransport, O: Output>(
    url: &Url,
    account: &Account,
    script: &mut UiScript,
    output: &mut O,
    imap: &mut S,
    smtp: &mut T,
    draft: &mut ScratchDraft,
) -> (r: Result<CompositionOutcome, Error>)
    requires
        !old(imap).released(),
    ensures
        final(imap).st().cur == old(imap).st().cur,
        final(imap).released(),
        r matches Ok(out) ==> exists|m: MsgModel|
            #[trigger] spec_outcome_effect(
                out,
                m,
                old(imap).st().boxes,
                final(imap).st().boxes,
                old(smtp).delivered(),
                final(smtp).delivered(),
                final(draft)@,
            ),
{
    let path = url_path(url);
    let pairs = url_query_pairs(url);
    let mut m = compose_from_mailto(path.as_str(), &pairs, account);
    let out = match msg_interaction(script, output, &mut m, imap, smtp, draft) {
        Ok(v) => v,
        Err(e) => {
            let _ = imap.logout();
            return Err(e);
        },
    };
    imap.logout()?;
    Ok(out)
}

/// Compose a fresh message for `account` with the given already-loaded
/// attachments and run the composition state machine over the transcript.
pub fn write<S: MailStore, T: MailTransport, O: Output>(
    attachments_to_add: Vec<Attachment>,
    account: &Account,
    script: &mut UiScript,
    output: &mut O,
    imap: &mut S,
    smtp: &mut T,
    draft: &mut ScratchDraft,
) -> (r: Result<CompositionOutcome, Error>)
    requires
        !old(imap).released(),
    ensures
        final(imap).st().cur == old(imap).st().cur,
        final(imap).released(),
        r matches Ok(out) ==> ({
            &&& exists|m: MsgModel|
                {
                    &&& #[trigger] spec_outcome_effect(
                        out,
                        m,
                        old(imap).st().boxes,
                        final(imap).st().boxes,
                        old(smtp).delivered(),
                        final(smtp).delivered(),
                        final(draft)@,
                    )
                    &&& ((m.headers == (HeadersModel {
                        from: seq![
                            crate::account::spec_address(account.display_name@, account.email@),
                        ],
                        to: Seq::empty(),
                        cc: None,
                        bcc: None,
                        in_reply_to: None,
                        subject: Some(Seq::<char>::empty()),
                        signature: Some(account.signature@),
                        encoding: TransferEncoding::EightBit,
                    }) && m.body == Seq::<char>::empty()) || spec_from_edit(
                        old(script).edit_sources(),
                        m.headers,
                        m.body,
                    ))
                    &&& m.raw == Seq::<char>::empty()
                    &&& m.attachments == attachments_to_add@.map_values(|a: Attachment| a@)
                }
        }),
{
    let mut h = Headers::empty();
    h.subject = Some(String::new());
    let mut m = Msg::new_with_headers(account, h);
    let mut atts = attachments_to_add;
    let ghost addv = atts@.map_values(|a: Attachment| a@);
    let mut i: usize = 0;
    proof {
        assert(m@.attachments =~= Seq::<AttachmentModel>::empty() + addv.take(0));
        assert(m@.headers =~= (HeadersModel {
            from: seq![crate::account::spec_address(account.display_name@, account.email@)],
            to: Seq::empty(),
            cc: None,
            bcc: None,
            in_reply_to: None,
            subject: Some(Seq::<char>::empty()),
            signature: Some(account.signature@),
            encoding: TransferEncoding::EightBit,
        }));
    }
    while i < atts.len()
        invariant
            i <= atts@.len(),
            addv.len() == atts@.len(),
            forall|j: int| 0 <= j < atts@.len() ==> addv[j] == #[trigger] atts@[j]@,
            m@.attachments == Seq::<AttachmentModel>::empty() + addv.take(i as int),
            m@.headers == (HeadersModel {
                from: seq![crate::account::spec_address(account.display_name@, account.email@)],
                to: Seq::empty(),
                cc: None,
                bcc: None,
                in_reply_to: None,
                subject: Some(Seq::<char>::empty()),
                signature: Some(account.signature@),
                encoding: TransferEncoding::EightBit,
            }),
            m@.body == Seq::<char>::empty(),
            m@.raw == Seq::<char>::empty(),
        decreases atts@.len() - i,
    {
        let a = &atts[i];
        let att = Attachment { filename: a.filename.clone(), body_raw: a.body_raw.clone() };
        proof {
            assert(att@.body_raw =~= a@.body_raw);
            assert(att@ =~= addv[i as int]);
        }
        m.add_attachment(att);
        proof {
            assert(addv.take(i + 1 as int) =~= addv.take(i as int).push(addv[i as int]));
            assert(m@.attachments =~= Seq::<AttachmentModel>::empty() + addv.take(i + 1 as int));
        }
        i = i + 1;
    }
    proof {
        assert(addv.take(atts@.len() as int) =~= addv);
        assert(Seq::<AttachmentModel>::empty() + addv =~= addv);
    }
    let out = match msg_interaction(script, output, &mut m, imap, smtp, draft) {
        Ok(v) => v,
        Err(e) => {
            let _ = imap.logout();
            return Err(e);
        },
    };
    imap.logout()?;
    Ok(out)
}

} // verus!
