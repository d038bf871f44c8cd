//! The composition state machine: given a message being composed, drive it
//! through edit/review cycles to exactly one terminal outcome — delivered,
//! saved as a remote draft, kept as a local draft, or discarded.
//!
//! The safety-critical ordering is stated in the contracts: transport
//! acceptance strictly precedes the append into "Sent", which strictly
//! precedes removal of the scratch draft; a failed append into "Drafts"
//! leaves the scratch draft in place. An interruption between any two steps
//! leaves the most conservative state, never the most finished-looking one.

use crate::error::Error;
use crate::flag::Flag;
use crate::msg::HeadersModel;
use crate::msg::Msg;
use crate::msg::MsgModel;
use crate::msg::spec_parse;
use crate::msg::spec_parse_ok;
use crate::msg::spec_render;
use crate::store::MailStore;
use crate::store::MailTransport;
use crate::store::Output;
use crate::store::spec_box_push;
use vstd::prelude::*;

verus! {

/// The five choices presented after an edit.
#[derive(Clone, Copy, PartialEq, Eq, Structural, Debug)]
pub enum PostEditChoice {
    Send,
    Edit,
    LocalDraft,
    RemoteDraft,
    Discard,
}

/// The terminal outcomes of one composition.
#[derive(Clone, Copy, PartialEq, Eq, Structural, Debug)]
pub enum CompositionOutcome {
    Delivered,
    SavedRemoteDraft,
    SavedLocalDraft,
    Discarded,
}

/// The scratch draft: a local, non-mailbox file holding in-progress
/// composition content. It is created by every edit step and removed only
/// on the success paths that made it redundant; its lifecycle is deliberately
/// not folded into the message entity, since on disk it outlives crashes.
pub struct ScratchDraft {
    content: Option<String>,
}

impl View for ScratchDraft {
    type V = Option<Seq<char>>;

    closed spec fn view(&self) -> Option<Seq<char>> {
        match self.content {
            Some(s) => Some(s@),
            None => None,
        }
    }
}

impl ScratchDraft {
    /// No scratch draft on record.
    pub fn new_absent() -> (r: ScratchDraft)
        ensures
            r@ is None,
    {
        ScratchDraft { content: None }
    }

    /// Persist `text` as the scratch draft.
    pub fn write(&mut self, text: &str)
        ensures
            final(self)@ == Some(text@),
    {
        self.content = Some(text.to_owned());
    }

    /// Remove the scratch draft. Removal never errors, also when the draft
    /// is already absent: discarding twice in direct succession is safe.
    pub fn remove(&mut self) -> (r: Result<(), Error>)
        ensures
            r is Ok,
            final(self)@ is None,
    {
        self.content = None;
        Ok(())
    }

    /// Whether a scratch draft is on record.
    pub fn is_present(&self) -> (r: bool)
        ensures
            r == (self@ is Some),
    {
        self.content.is_some()
    }

    /// The content on record.
    pub fn text(&self) -> (r: Option<String>)
        ensures
            match r {
                Some(s) => self@ == Some(s@),
                None => self@ is None,
            },
    {
        match &self.content {
            Some(s) => Some(s.clone()),
            None => None,
        }
    }
}

/// A finite interaction transcript: the choices the user will pick, in
/// order, and the full raw draft texts (headers included) successive edit
/// steps will produce. The prompt of a live session is the same thing
/// delivered one blocking call at a time.
pub struct UiScript {
    choices: Vec<PostEditChoice>,
    cpos: usize,
    edits: Vec<String>,
    epos: usize,
}

impl UiScript {
    /// How many choices are still to be answered.
    pub closed spec fn choices_left(&self) -> int {
        if self.cpos <= self.choices@.len() {
            self.choices@.len() - self.cpos
        } else {
            0
        }
    }

    /// The next choice to be answered.
    pub closed spec fn next_choice_spec(&self) -> PostEditChoice {
        self.choices@[self.cpos as int]
    }

    /// The raw draft text the next edit step will produce; nothing once
    /// the scripted edits are exhausted (the edit then changes nothing).
    pub closed spec fn next_edit(&self) -> Option<Seq<char>> {
        if self.epos < self.edits@.len() {
            Some(self.edits@[self.epos as int]@)
        } else {
            None
        }
    }

    /// Every raw draft text this transcript can produce.
    pub closed spec fn edit_sources(&self) -> Seq<Seq<char>> {
        self.edits@.map_values(|s: String| s@)
    }

    /// A transcript answering `choices` in order, with successive edits
    /// producing `edits`.
    pub fn new(choices: Vec<PostEditChoice>, edits: Vec<String>) -> (r: UiScript)
        ensures
            r.choices_left() == choices@.len(),
            r.next_edit() == (if edits@.len() > 0 {
                Some(edits@[0]@)
            } else {
                None::<Seq<char>>
            }),
            choices@.len() > 0 ==> r.next_choice_spec() == choices@[0],
    {
        UiScript { choices, cpos: 0, edits, epos: 0 }
    }

    /// Whether a choice is still to be answered.
    pub fn has_next(&self) -> (r: bool)
        ensures
            r == (self.choices_left() > 0),
    {
        self.cpos < self.choices.len()
    }

    /// Answer the next choice.
    pub fn next_choice(&mut self) -> (r: PostEditChoice)
        requires
            old(self).choices_left() > 0,
        ensures
            r == old(self).next_choice_spec(),
            final(self).choices_left() == old(self).choices_left() - 1,
            final(self).next_edit() == old(self).next_edit(),
            final(self).edit_sources() == old(self).edit_sources(),
    {
        let n = self.choices.len();
        proof {
            assert(self.cpos < n);
        }
        let c = self.choices[self.cpos];
        self.cpos = self.cpos + 1;
        c
    }

    /// Perform one edit step: the user rewrites the whole draft text,
    /// headers included. The next scripted text is parsed; its header
    /// block and body replace the message's and the text itself is
    /// persisted to the scratch draft. Malformed text fails the edit and
    /// changes nothing; an exhausted edit script changes nothing either.
    pub fn apply_edit(&mut self, msg: &mut Msg, draft: &mut ScratchDraft) -> (r: Result<
        (),
        Error,
    >)
        ensures
            final(self).choices_left() == old(self).choices_left(),
            final(self).next_choice_spec() == old(self).next_choice_spec(),
            final(self).edit_sources() == old(self).edit_sources(),
            match old(self).next_edit() {
                Some(t) => if spec_parse_ok(t) {
                    &&& r is Ok
                    &&& final(msg)@ == (MsgModel {
                        headers: spec_parse(t).headers,
                        body: spec_parse(t).body,
                        ..old(msg)@
                    })
                    &&& final(draft)@ == Some(t)
                    &&& old(self).edit_sources().contains(t)
                } else {
                    &&& r == Err::<(), Error>(Error::EditFailure)
                    &&& *final(msg) == *old(msg)
                    &&& *final(draft) == *old(draft)
                },
                None => r is Ok && *final(msg) == *old(msg) && *final(draft) == *old(draft),
            },
    {
        if self.epos < self.edits.len() {
            let text = self.edits[self.epos].clone();
            match Msg::parse(text.as_str()) {
                Ok(parsed) => {
                    self.epos = self.epos + 1;
                    msg.headers = parsed.headers;
                    msg.body = parsed.body;
                    draft.write(text.as_str());
                    proof {
                        let t = old(self).next_edit()->Some_0;
                        assert(final(msg)@ =~= (MsgModel {
                            headers: spec_parse(t).headers,
                            body: spec_parse(t).body,
                            ..old(msg)@
                        }));
                        assert(old(self).edit_sources()[old(self).epos as int] == t);
                        assert(old(self).edit_sources().contains(t));
                    }
                    Ok(())
                },
                Err(_) => Err(Error::EditFailure),
            }
        } else {
            Ok(())
        }
    }
}

/// Whether the header block `h` and body `b` came whole out of one of the
/// transcript's edit texts.
pub open spec fn spec_from_edit(sources: Seq<Seq<char>>, h: HeadersModel, b: Seq<char>) -> bool {
    exists|t: Seq<char>|
        {
            &&& #[trigger] sources.contains(t)
            &&& spec_parse_ok(t)
            &&& spec_parse(t).headers == h
            &&& spec_parse(t).body == b
        }
}

/// Whether a transcript opens with an edit step that cannot fail and then
/// the given choice. Such an opening decides the outcome by itself: no
/// collaborator is consulted on the way to it.
pub open spec fn spec_opens_with(script: UiScript, choice: PostEditChoice) -> bool {
    &&& script.choices_left() > 0
    &&& script.next_choice_spec() == choice
    &&& match script.next_edit() {
        Some(t) => spec_parse_ok(t),
        None => true,
    }
}

/// What reaching terminal outcome `out` with final message `m` means for
/// the collaborators: how the mailboxes went from `boxes0` to `boxes1`, the
/// delivery record from `d0` to `d1`, and what is left of the scratch
/// draft.
pub open spec fn spec_outcome_effect(
    out: CompositionOutcome,
    m: MsgModel,
    boxes0: Map<Seq<char>, Seq<MsgModel>>,
    boxes1: Map<Seq<char>, Seq<MsgModel>>,
    d0: Seq<Seq<char>>,
    d1: Seq<Seq<char>>,
    draft1: Option<Seq<char>>,
) -> bool {
    match out {
        CompositionOutcome::Delivered => {
            &&& m.flags.contains(Flag::Seen)
            &&& d1 == d0.push(spec_render(m))
            &&& boxes1 == spec_box_push(boxes0, "Sent"@, m)
            &&& draft1 is None
        },
        CompositionOutcome::SavedRemoteDraft => {
            &&& m.flags.contains(Flag::Seen)
            &&& boxes1 == spec_box_push(boxes0, "Drafts"@, m)
            &&& d1 == d0
            &&& draft1 is None
        },
        CompositionOutcome::SavedLocalDraft => {
            &&& boxes1 == boxes0
            &&& d1 == d0
        },
        CompositionOutcome::Discarded => {
            &&& boxes1 == boxes0
            &&& d1 == d0
            &&& draft1 is None
        },
    }
}

/// Process one post-edit choice against the collaborators. `Ok(None)` means
/// the machine stays at the choice menu (the Edit choice itself, which the
/// caller performs, or a conversion failure during Send — the deliberate
/// retry point); `Ok(Some(out))` is a terminal outcome; `Err` is fatal to
/// the invocation.
///
/// The contract pins down every path: nothing is delivered on a conversion
/// failure and the scratch draft is untouched; the append into "Sent"
/// happens only after the transport accepted the sendable form; the scratch
/// draft is removed only after the append succeeded; a failed append into
/// "Drafts" leaves the scratch draft in place.
pub fn interact_once<S: MailStore, T: MailTransport, O: Output>(
    choice: PostEditChoice,
    msg: &mut Msg,
    store: &mut S,
    transport: &mut T,
    output: &mut O,
    draft: &mut ScratchDraft,
) -> (r: Result<Option<CompositionOutcome>, Error>)
    requires
        !old(store).released(),
    ensures
        !final(store).released(),
        final(store).st().cur == old(store).st().cur,
        final(msg)@.headers == old(msg)@.headers,
        final(msg)@.body == old(msg)@.body,
        final(msg)@.attachments == old(msg)@.attachments,
        final(msg)@.raw == old(msg)@.raw,
        old(msg)@.flags.subset_of(final(msg)@.flags),
        r matches Err(e) ==> (e == Error::StoreFailure || e == Error::TransportFailure
            || e == Error::OutputFailure),
        choice == PostEditChoice::Edit ==> ({
            &&& r == Ok::<Option<CompositionOutcome>, Error>(None)
            &&& *final(msg) == *old(msg)
            &&& *final(draft) == *old(draft)
            &&& final(store).st() == old(store).st()
            &&& final(transport).delivered() == old(transport).delivered()
        }),
        choice == PostEditChoice::LocalDraft ==> ({
            &&& r == Ok::<Option<CompositionOutcome>, Error>(
                Some(CompositionOutcome::SavedLocalDraft),
            )
            &&& *final(msg) == *old(msg)
            &&& *final(draft) == *old(draft)
            &&& final(store).st() == old(store).st()
            &&& final(transport).delivered() == old(transport).delivered()
        }),
        choice == PostEditChoice::Discard ==> ({
            &&& r == Ok::<Option<CompositionOutcome>, Error>(Some(CompositionOutcome::Discarded))
            &&& *final(msg) == *old(msg)
            &&& final(draft)@ is None
            &&& final(store).st() == old(store).st()
            &&& final(transport).delivered() == old(transport).delivered()
        }),
        choice == PostEditChoice::Send && (old(msg)@.headers.from.len() == 0
            || old(msg)@.headers.to.len() == 0) ==> ({
            &&& r == Ok::<Option<CompositionOutcome>, Error>(None)
            &&& *final(msg) == *old(msg)
            &&& *final(draft) == *old(draft)
            &&& final(store).st() == old(store).st()
            &&& final(transport).delivered() == old(transport).delivered()
        }),
        choice == PostEditChoice::Send && old(msg)@.headers.from.len() > 0
            && old(msg)@.headers.to.len() > 0 ==> (match r {
            Ok(step) => {
                &&& step == Some(CompositionOutcome::Delivered)
                &&& final(msg)@ == (MsgModel {
                    flags: old(msg)@.flags.insert(Flag::Seen),
                    ..old(msg)@
                })
                &&& final(transport).delivered() == old(transport).delivered().push(
                    spec_render(final(msg)@),
                )
                &&& final(store).st().boxes == spec_box_push(
                    old(store).st().boxes,
                    "Sent"@,
                    final(msg)@,
                )
                &&& final(draft)@ is None
                &&& final(output).lines() == old(output).lines().push(
                    "Message successfully sent"@,
                )
            },
            Err(_) => ({
                ||| {
                    &&& final(transport).delivered() == old(transport).delivered()
                    &&& final(store).st().boxes == old(store).st().boxes
                    &&& *final(draft) == *old(draft)
                    &&& *final(msg) == *old(msg)
                }
                ||| {
                    &&& final(transport).delivered() == old(transport).delivered().push(
                        spec_render(final(msg)@),
                    )
                    &&& ({
                        ||| {
                            &&& final(store).st().boxes == old(store).st().boxes
                            &&& *final(draft) == *old(draft)
                        }
                        ||| {
                            &&& final(store).st().boxes == spec_box_push(
                                old(store).st().boxes,
                                "Sent"@,
                                final(msg)@,
                            )
                            &&& final(draft)@ is None
                        }
                    })
                }
            }),
        }),
        choice == PostEditChoice::RemoteDraft ==> (match r {
            Ok(step) => {
                &&& step == Some(CompositionOutcome::SavedRemoteDraft)
                &&& final(msg)@ == (MsgModel {
                    flags: old(msg)@.flags.insert(Flag::Seen),
                    ..old(msg)@
                })
                &&& final(store).st().boxes == spec_box_push(
                    old(store).st().boxes,
                    "Drafts"@,
                    final(msg)@,
                )
                &&& final(draft)@ is None
                &&& final(transport).delivered() == old(transport).delivered()
                &&& final(output).lines() == old(output).lines().push(
                    "Message successfully saved to Drafts"@,
                )
            },
            Err(_) => ({
                &&& final(transport).delivered() == old(transport).delivered()
                &&& ({
                    ||| {
                        &&& final(store).st().boxes == old(store).st().boxes
                        &&& *final(draft) == *old(draft)
                    }
                    ||| {
                        &&& final(store).st().boxes == spec_box_push(
                            old(store).st().boxes,
                            "Drafts"@,
                            final(msg)@,
                        )
                        &&& final(draft)@ is None
                    }
                })
            }),
        }),
{
    match choice {
        PostEditChoice::Send => {
            let sendable = match msg.to_sendable_msg() {
                Ok(sendable) => sendable,
                Err(e) => {
                    // A conversion failure is almost always a missing
                    // required header: report it and let the user fix the
                    // message via Edit rather than losing the draft.
                    let _ = output.print(e.describe());
                    let _ = output.print("Please re-edit the message to make it sendable");
                    return Ok(None);
                },
            };
            transport.send(&sendable)?;
            msg.flags.insert(Flag::Seen);
            proof {
                assert(msg@ =~= (MsgModel {
                    flags: old(msg)@.flags.insert(Flag::Seen),
                    ..old(msg)@
                }));
                assert(spec_render(msg@) == spec_render(old(msg)@));
            }
            let mbox = crate::mbox::Mbox::from_name("Sent");
            store.append_msg(&mbox, msg)?;
            draft.remove()?;
            output.print("Message successfully sent")?;
            Ok(Some(CompositionOutcome::Delivered))
        },
        PostEditChoice::Edit => Ok(None),
        PostEditChoice::LocalDraft => Ok(Some(CompositionOutcome::SavedLocalDraft)),
        PostEditChoice::RemoteDraft => {
            msg.flags.insert(Flag::Seen);
            proof {
                assert(msg@ =~= (MsgModel {
                    flags: old(msg)@.flags.insert(Flag::Seen),
                    ..old(msg)@
                }));
            }
            let mbox = crate::mbox::Mbox::from_name("Drafts");
            match store.append_msg(&mbox, msg) {
                Ok(_) => {
                    draft.remove()?;
                    output.print("Message successfully saved to Drafts")?;
                    Ok(Some(CompositionOutcome::SavedRemoteDraft))
                },
                Err(e) => {
                    // The explicit divergent error path: the scratch draft
                    // is deliberately not removed, so nothing is lost.
                    let _ = output.print("Cannot save draft to the server");
                    Err(e)
                },
            }
        },
        PostEditChoice::Discard => {
            draft.remove()?;
            Ok(Some(CompositionOutcome::Discarded))
        },
    }
}

/// Run the composition state machine over a finite interaction transcript:
/// an initial edit, then one choice after another until a terminal outcome
/// is reached. A transcript that ends without a terminal choice fails with
/// [`Error::UiClosed`], and only then; recoverable events (a conversion
/// failure during Send, the Edit choice and its failures) consume the
/// transcript without ending it. A transcript that opens with keep-as-local-
/// draft or with discard reaches its outcome unconditionally: no
/// collaborator stands in the way.
pub fn msg_interaction<S: MailStore, T: MailTransport, O: Output>(
    script: &mut UiScript,
    output: &mut O,
    msg: &mut Msg,
    store: &mut S,
    transport: &mut T,
    draft: &mut ScratchDraft,
) -> (r: Result<CompositionOutcome, Error>)
    requires
        !old(store).released(),
    ensures
        !final(store).released(),
        final(store).st().cur == old(store).st().cur,
        final(msg)@.attachments == old(msg)@.attachments,
        final(msg)@.raw == old(msg)@.raw,
        // the header block and body are the caller's, or came whole out of
        // one of the transcript's own edit texts
        (final(msg)@.headers == old(msg)@.headers && final(msg)@.body == old(msg)@.body)
            || spec_from_edit(old(script).edit_sources(), final(msg)@.headers, final(msg)@.body),
        spec_opens_with(*old(script), PostEditChoice::LocalDraft) ==> r == Ok::<
            CompositionOutcome,
            Error,
        >(CompositionOutcome::SavedLocalDraft),
        spec_opens_with(*old(script), PostEditChoice::Discard) ==> r == Ok::<
            CompositionOutcome,
            Error,
        >(CompositionOutcome::Discarded),
        r == Err::<CompositionOutcome, Error>(Error::UiClosed) ==> final(script).choices_left()
            == 0,
        r matches Ok(out) ==> spec_outcome_effect(
            out,
            final(msg)@,
            old(store).st().boxes,
            final(store).st().boxes,
            old(transport).delivered(),
            final(transport).delivered(),
            final(draft)@,
        ),
        r matches Ok(out) && out == CompositionOutcome::SavedLocalDraft ==> (final(draft)@
            matches Some(t) && spec_parse_ok(t) && spec_parse(t).headers == final(msg)@.headers
            && spec_parse(t).body == final(msg)@.body) || final(draft)@ == old(draft)@,
        r is Err ==> ({
            ||| {
                &&& final(transport).delivered() == old(transport).delivered()
                &&& final(store).st().boxes == old(store).st().boxes
                &&& (old(draft)@ is Some ==> final(draft)@ is Some)
            }
            ||| {
                &&& final(transport).delivered() == old(transport).delivered().push(
                    spec_render(final(msg)@),
                )
                &&& ({
                    ||| {
                        &&& final(store).st().boxes == old(store).st().boxes
                        &&& (old(draft)@ is Some ==> final(draft)@ is Some)
                    }
                    ||| {
                        &&& final(store).st().boxes == spec_box_push(
                            old(store).st().boxes,
                            "Sent"@,
                            final(msg)@,
                        )
                        &&& final(draft)@ is None
                    }
                })
            }
            ||| {
                &&& final(transport).delivered() == old(transport).delivered()
                &&& final(store).st().boxes == spec_box_push(
                    old(store).st().boxes,
                    "Drafts"@,
                    final(msg)@,
                )
                &&& final(draft)@ is None
            }
        }),
{
    // Let the user rewrite the draft first, before opening the prompt; the
    // edit step persists the text to the scratch draft as a side effect. A
    // failed first edit is fatal, as in a live session.
    match script.apply_edit(msg, draft) {
        Ok(_) => {},
        Err(e) => {
            return Err(e);
        },
    }
    while script.has_next()
        invariant
            !store.released(),
            store.st().cur == old(store).st().cur,
            store.st().boxes == old(store).st().boxes,
            transport.delivered() == old(transport).delivered(),
            msg@.attachments == old(msg)@.attachments,
            msg@.raw == old(msg)@.raw,
            script.edit_sources() == old(script).edit_sources(),
            draft@ == old(draft)@ || (draft@ matches Some(t) && spec_parse_ok(t)
                && spec_parse(t).headers == msg@.headers && spec_parse(t).body == msg@.body),
            (msg@.headers == old(msg)@.headers && msg@.body == old(msg)@.body) || spec_from_edit(
                old(script).edit_sources(),
                msg@.headers,
                msg@.body,
            ),
            script.choices_left() <= old(script).choices_left(),
            script.choices_left() == old(script).choices_left() ==> script.next_choice_spec()
                == old(script).next_choice_spec(),
            script.choices_left() < old(script).choices_left() ==> !spec_opens_with(
                *old(script),
                PostEditChoice::LocalDraft,
            ) && !spec_opens_with(*old(script), PostEditChoice::Discard),
        decreases script.choices_left(),
    {
        let ghost first = script.choices_left() == old(script).choices_left();
        let choice = script.next_choice();
        let step = interact_once(choice, msg, store, transport, output, draft)?;
        match step {
            Some(out) => {
                proof {
                    if first {
                        assert(choice == old(script).next_choice_spec());
                    }
                }
                return Ok(out);
            },
            None => {
                proof {
                    if first {
                        // a transcript opening with a terminal no-fail
                        // choice cannot reach this continuation
                        assert(choice != PostEditChoice::LocalDraft && choice
                            != PostEditChoice::Discard);
                    }
                }
                if choice == PostEditChoice::Edit {
                    match script.apply_edit(msg, draft) {
                        Ok(_) => {},
                        Err(e) => {
                            // a failed re-edit is recoverable: report it
                            // and present the choices again
                            let _ = output.print(e.describe());
                            let _ = output.print(
                                "Please try to fix the problem by editing the message again",
                            );
                        },
                    }
                }
            },
        }
    }
    Err(Error::UiClosed)
}

} // verus!
