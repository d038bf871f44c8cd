//! The collaborator interfaces: a mail-store session, a mail-transport
//! session and an output sink, each specified only at its boundary. The
//! orchestration core is written once against these interfaces, never
//! against a concrete backend.

use crate::error::Error;
use crate::flag::Flag;
use crate::flag::Flags;
use crate::mbox::Mbox;
use crate::msg::Msg;
use crate::msg::MsgModel;
use crate::msg::SendableMsg;
use vstd::prelude::*;

verus! {

/// The observable state of a mail store: the messages of the selected
/// mailbox by identifier, and the named mailboxes messages have been
/// appended into, in order of appending.
#[verifier::ext_equal]
pub struct StoreModel {
    pub cur: Map<Seq<char>, MsgModel>,
    pub boxes: Map<Seq<char>, Seq<MsgModel>>,
}

/// `boxes` with `m` appended at the end of mailbox `name`.
pub open spec fn spec_box_push(
    boxes: Map<Seq<char>, Seq<MsgModel>>,
    name: Seq<char>,
    m: MsgModel,
) -> Map<Seq<char>, Seq<MsgModel>> {
    boxes.insert(
        name,
        (if boxes.dom().contains(name) {
            boxes[name]
        } else {
            Seq::empty()
        }).push(m),
    )
}

/// `cur` with `flags` added onto message `uid` (which must be present).
pub open spec fn spec_add_flags(
    cur: Map<Seq<char>, MsgModel>,
    uid: Seq<char>,
    flags: Set<Flag>,
) -> Map<Seq<char>, MsgModel> {
    cur.insert(uid, MsgModel { flags: cur[uid].flags.union(flags), ..cur[uid] })
}

/// `cur` without the messages flagged deleted: the effect of a purge.
pub open spec fn spec_purge(cur: Map<Seq<char>, MsgModel>) -> Map<Seq<char>, MsgModel> {
    Map::new(
        |uid: Seq<char>| cur.dom().contains(uid) && !cur[uid].flags.contains(Flag::Deleted),
        |uid: Seq<char>| cur[uid],
    )
}

/// One read request handed to a mail store: a listing page, or a search
/// page with its query.
pub enum StoreRequest {
    List { size: usize, page: usize },
    Search { query: Seq<char>, size: usize, page: usize },
}

/// A summary of one message, as a listing presents it.
#[derive(Clone, Debug)]
pub struct MsgSummary {
    pub uid: String,
    pub subject: Option<String>,
}

/// The mathematical value of a [`MsgSummary`].
#[verifier::ext_equal]
pub struct MsgSummaryModel {
    pub uid: Seq<char>,
    pub subject: Option<Seq<char>>,
}

impl View for MsgSummary {
    type V = MsgSummaryModel;

    open spec fn view(&self) -> MsgSummaryModel {
        MsgSummaryModel {
            uid: self.uid@,
            subject: match self.subject {
                Some(s) => Some(s@),
                None => None,
            },
        }
    }
}

impl DeepView for MsgSummary {
    type V = MsgSummaryModel;

    open spec fn deep_view(&self) -> MsgSummaryModel {
        self@
    }
}

/// The summary of the message `uid` holds.
pub open spec fn spec_summary_of(uid: Seq<char>, m: MsgModel) -> MsgSummaryModel {
    MsgSummaryModel { uid: uid, subject: m.headers.subject }
}

/// Whether every summary of `v` summarises a message of `cur`.
pub open spec fn spec_summaries_of(
    v: Seq<MsgSummaryModel>,
    cur: Map<Seq<char>, MsgModel>,
) -> bool {
    forall|i: int|
        0 <= i < v.len() ==> cur.dom().contains(#[trigger] v[i].uid) && v[i] == spec_summary_of(
            v[i].uid,
            cur[v[i].uid],
        )
}

/// A mail-store session: one per invocation, exclusively owned, released
/// once. Nothing obliges a backend to succeed — a collaborator may fail at
/// any call — but each contract pins down what every outcome means for the
/// observable state.
pub trait MailStore: Sized {
    /// The observable state.
    spec fn st(&self) -> StoreModel;

    /// Whether the session has been released.
    spec fn released(&self) -> bool;

    /// The read requests asked of this session, in order: what page of
    /// summaries was requested, with what size and (for a search) query.
    spec fn requests(&self) -> Seq<StoreRequest>;

    /// Fetch the message `uid` of the selected mailbox. Fetching mutates
    /// nothing.
    fn get_msg(&mut self, uid: &str) -> (r: Result<Msg, Error>)
        requires
            !old(self).released(),
        ensures
            final(self).st() == old(self).st(),
            !final(self).released(),
            final(self).requests() == old(self).requests(),
            r matches Ok(m) ==> old(self).st().cur.dom().contains(uid@) && m@ == old(
                self,
            ).st().cur[uid@],
            r matches Err(e) ==> e == Error::StoreFailure,
    ;

    /// Append a copy of `msg` at the end of mailbox `mbox`. On failure the
    /// store is unchanged; the selected mailbox is never touched.
    fn append_msg(&mut self, mbox: &Mbox, msg: &Msg) -> (r: Result<(), Error>)
        requires
            !old(self).released(),
        ensures
            !final(self).released(),
            final(self).st().cur == old(self).st().cur,
            final(self).requests() == old(self).requests(),
            r is Ok ==> final(self).st().boxes == spec_box_push(
                old(self).st().boxes,
                mbox@,
                msg@,
            ),
            r is Err ==> final(self).st().boxes == old(self).st().boxes,
            r matches Err(e) ==> e == Error::StoreFailure,
    ;

    /// Add `flags` onto the message `uid` of the selected mailbox. Flags
    /// are cumulative: no flag is cleared. On failure nothing changed.
    fn add_flags(&mut self, uid: &str, flags: &Flags) -> (r: Result<(), Error>)
        requires
            !old(self).released(),
        ensures
            !final(self).released(),
            final(self).st().boxes == old(self).st().boxes,
            final(self).requests() == old(self).requests(),
            r is Ok ==> old(self).st().cur.dom().contains(uid@) && final(self).st().cur
                == spec_add_flags(old(self).st().cur, uid@, flags@),
            r is Err ==> final(self).st().cur == old(self).st().cur,
            r matches Err(e) ==> e == Error::StoreFailure,
    ;

    /// Permanently remove the messages of the selected mailbox that are
    /// flagged deleted. On failure nothing changed.
    fn expunge(&mut self) -> (r: Result<(), Error>)
        requires
            !old(self).released(),
        ensures
            !final(self).released(),
            final(self).st().boxes == old(self).st().boxes,
            final(self).requests() == old(self).requests(),
            r is Ok ==> final(self).st().cur == spec_purge(old(self).st().cur),
            r is Err ==> final(self).st().cur == old(self).st().cur,
            r matches Err(e) ==> e == Error::StoreFailure,
    ;

    /// One page of summaries of the selected mailbox. Every returned
    /// summary summarises a message that is present; reading mutates
    /// nothing, and the request itself is on record.
    fn list_msgs(&mut self, page_size: usize, page: usize) -> (r: Result<Vec<MsgSummary>, Error>)
        requires
            !old(self).released(),
        ensures
            final(self).st() == old(self).st(),
            !final(self).released(),
            final(self).requests() == old(self).requests().push(
                StoreRequest::List { size: page_size, page: page },
            ),
            r matches Ok(v) ==> spec_summaries_of(v.deep_view(), old(self).st().cur),
            r matches Err(e) ==> e == Error::StoreFailure,
    ;

    /// One page of summaries of the selected mailbox's messages matching
    /// `query`. Every returned summary summarises a message that is
    /// present; reading mutates nothing, and the request itself is on
    /// record.
    fn search_msgs(&mut self, query: &str, page_size: usize, page: usize) -> (r: Result<
        Vec<MsgSummary>,
        Error,
    >)
        requires
            !old(self).released(),
        ensures
            final(self).st() == old(self).st(),
            !final(self).released(),
            final(self).requests() == old(self).requests().push(
                StoreRequest::Search { query: query@, size: page_size, page: page },
            ),
            r matches Ok(v) ==> spec_summaries_of(v.deep_view(), old(self).st().cur),
            r matches Err(e) ==> e == Error::StoreFailure,
    ;

    /// Release the session. The observable state is not touched, and the
    /// session counts as released whatever the goodbye returned: an error
    /// here means the farewell failed, not that the session stays usable.
    fn logout(&mut self) -> (r: Result<(), Error>)
        requires
            !old(self).released(),
        ensures
            final(self).st() == old(self).st(),
            final(self).requests() == old(self).requests(),
            final(self).released(),
            r matches Err(e) ==> e == Error::StoreFailure,
    ;
}

/// A mail-transport session: it records, in order, the sendable forms it
/// actually accepted. The record grows exactly on success, so nothing can
/// be marked sent before the transport accepted it.
pub trait MailTransport: Sized {
    /// The sendable forms accepted so far, in order.
    spec fn delivered(&self) -> Seq<Seq<char>>;

    /// Deliver the sendable form of a message.
    fn send(&mut self, msg: &SendableMsg) -> (r: Result<(), Error>)
        ensures
            r is Ok ==> final(self).delivered() == old(self).delivered().push(msg@),
            r is Err ==> final(self).delivered() == old(self).delivered(),
            r matches Err(e) ==> e == Error::TransportFailure,
    ;
}

/// The output sink values are presented to, with a mode flag separating
/// human-oriented from machine-oriented rendering.
pub trait Output: Sized {
    /// The lines presented so far, in order.
    spec fn lines(&self) -> Seq<Seq<char>>;

    /// Whether the sink renders for machines.
    spec fn json_mode(&self) -> bool;

    /// The mode flag.
    fn is_json(&self) -> (r: bool)
        ensures
            r == self.json_mode(),
    ;

    /// Present one line.
    fn print(&mut self, s: &str) -> (r: Result<(), Error>)
        ensures
            final(self).json_mode() == old(self).json_mode(),
            r is Ok ==> final(self).lines() == old(self).lines().push(s@),
            r is Err ==> final(self).lines() == old(self).lines(),
            r matches Err(e) ==> e == Error::OutputFailure,
    ;
}

} // verus!
