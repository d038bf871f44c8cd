//! The message entity: header block, body, attachment list and flag set,
//! with its derived views (transport-sendable wire form, raw source) and the
//! transformations (reply, forward, parse from raw text) that feed the
//! composition workflow.

use crate::account::Account;
use crate::error::Error;
use crate::flag::Flag;
use crate::flag::Flags;
use crate::textutil::chars_to_string;
use crate::textutil::find_ch;
use crate::textutil::join;
use crate::textutil::spec_find_ch;
use crate::textutil::spec_join;
use crate::textutil::spec_lines;
use crate::textutil::spec_split;
use crate::textutil::spec_strip_lead_sp;
use crate::textutil::spec_to_crlf;
use crate::textutil::split_ch;
use crate::textutil::split_lines;
use crate::textutil::str_to_chars;
use crate::textutil::strip_lead_sp;
use crate::textutil::subchars;
use crate::textutil::to_crlf;
use vstd::prelude::*;
use vstd::string::StringExecFns;

verus! {

/// How a body is encoded on the wire.
#[derive(Clone, Copy, PartialEq, Eq, Structural, Debug)]
pub enum TransferEncoding {
    SevenBit,
    EightBit,
    QuotedPrintable,
    Base64,
}

/// One attachment of a message.
#[derive(Clone, Debug)]
pub struct Attachment {
    pub filename: String,
    pub body_raw: Vec<u8>,
}

/// The mathematical value of an [`Attachment`].
#[verifier::ext_equal]
pub struct AttachmentModel {
    pub filename: Seq<char>,
    pub body_raw: Seq<u8>,
}

impl View for Attachment {
    type V = AttachmentModel;

    open spec fn view(&self) -> AttachmentModel {
        AttachmentModel { filename: self.filename@, body_raw: self.body_raw@ }
    }
}

/// The header block of a message.
#[derive(Clone, Debug)]
pub struct Headers {
    pub from: Vec<String>,
    pub to: Vec<String>,
    pub cc: Option<Vec<String>>,
    pub bcc: Option<Vec<String>>,
    pub in_reply_to: Option<String>,
    pub subject: Option<String>,
    pub signature: Option<String>,
    pub encoding: TransferEncoding,
}

/// The mathematical value of a [`Headers`].
#[verifier::ext_equal]
pub struct HeadersModel {
    pub from: Seq<Seq<char>>,
    pub to: Seq<Seq<char>>,
    pub cc: Option<Seq<Seq<char>>>,
    pub bcc: Option<Seq<Seq<char>>>,
    pub in_reply_to: Option<Seq<char>>,
    pub subject: Option<Seq<char>>,
    pub signature: Option<Seq<char>>,
    pub encoding: TransferEncoding,
}

impl View for Headers {
    type V = HeadersModel;

    open spec fn view(&self) -> HeadersModel {
        HeadersModel {
            from: self.from.deep_view(),
            to: self.to.deep_view(),
            cc: match self.cc {
                Some(v) => Some(v.deep_view()),
                None => None,
            },
            bcc: match self.bcc {
                Some(v) => Some(v.deep_view()),
                None => None,
            },
            in_reply_to: match self.in_reply_to {
                Some(s) => Some(s@),
                None => None,
            },
            subject: match self.subject {
                Some(s) => Some(s@),
                None => None,
            },
            signature: match self.signature {
                Some(s) => Some(s@),
                None => None,
            },
            encoding: self.encoding,
        }
    }
}

/// The header block with nothing set.
pub open spec fn spec_headers_empty() -> HeadersModel {
    HeadersModel {
        from: Seq::empty(),
        to: Seq::empty(),
        cc: None,
        bcc: None,
        in_reply_to: None,
        subject: None,
        signature: None,
        encoding: TransferEncoding::EightBit,
    }
}

impl Headers {
    /// A header block with nothing set.
    pub fn empty() -> (h: Headers)
        ensures
            h@ =~= spec_headers_empty(),
    {
        Headers {
            from: Vec::new(),
            to: Vec::new(),
            cc: None,
            bcc: None,
            in_reply_to: None,
            subject: None,
            signature: None,
            encoding: TransferEncoding::EightBit,
        }
    }
}

/// The body of a message, plain text.
#[derive(Clone, Debug)]
pub struct Body {
    pub text: String,
}

impl Body {
    /// A body holding `text`.
    pub fn new_with_text(text: String) -> (b: Body)
        ensures
            b.text@ == text@,
    {
        Body { text }
    }
}

/// A message: header block, body, attachments and flag set, plus the raw
/// source it was parsed from (empty for a fresh composition).
#[derive(Clone, Debug)]
pub struct Msg {
    pub headers: Headers,
    pub body: Body,
    pub attachments: Vec<Attachment>,
    pub flags: Flags,
    pub raw: String,
}

/// The mathematical value of a [`Msg`].
#[verifier::ext_equal]
pub struct MsgModel {
    pub headers: HeadersModel,
    pub body: Seq<char>,
    pub attachments: Seq<AttachmentModel>,
    pub flags: Set<Flag>,
    pub raw: Seq<char>,
}

impl View for Msg {
    type V = MsgModel;

    open spec fn view(&self) -> MsgModel {
        MsgModel {
            headers: self.headers@,
            body: self.body.text@,
            attachments: self.attachments@.map_values(|a: Attachment| a@),
            flags: self.flags@,
            raw: self.raw@,
        }
    }
}

/// The fully-resolved, transport-ready encoding of a message, produced only
/// once all required headers are present.
#[derive(Clone, Debug)]
pub struct SendableMsg {
    pub raw: String,
}

impl View for SendableMsg {
    type V = Seq<char>;

    open spec fn view(&self) -> Seq<char> {
        self.raw@
    }
}

/// One optional header line: nothing when the value is absent.
pub open spec fn spec_opt_line(label: Seq<char>, v: Option<Seq<char>>) -> Seq<char> {
    match v {
        Some(s) => label + s + "\r\n"@,
        None => Seq::empty(),
    }
}

/// One optional address-list header line: nothing when the list is absent.
pub open spec fn spec_opt_list_line(label: Seq<char>, v: Option<Seq<Seq<char>>>) -> Seq<char> {
    match v {
        Some(items) => label + spec_join(items, ", "@) + "\r\n"@,
        None => Seq::empty(),
    }
}

/// The rendered header block of a message.
pub open spec fn spec_render_headers(h: HeadersModel) -> Seq<char> {
    "From: "@ + spec_join(h.from, ", "@) + "\r\n"@ + "To: "@ + spec_join(h.to, ", "@) + "\r\n"@
        + spec_opt_list_line("Cc: "@, h.cc) + spec_opt_list_line("Bcc: "@, h.bcc) + spec_opt_line(
        "In-Reply-To: "@,
        h.in_reply_to,
    ) + spec_opt_line("Subject: "@, h.subject)
}

/// The rendered signature block: separated from the body by the
/// conventional delimiter line, absent when no signature is set.
pub open spec fn spec_render_sig(sig: Option<Seq<char>>) -> Seq<char> {
    match sig {
        Some(s) => if s.len() == 0 {
            Seq::empty()
        } else {
            "\r\n-- \r\n"@ + spec_to_crlf(s)
        },
        None => Seq::empty(),
    }
}

/// The human-readable and transport form of a message: rendered headers, a
/// blank line, the body in transport line endings, then the signature block.
pub open spec fn spec_render(m: MsgModel) -> Seq<char> {
    spec_render_headers(m.headers) + "\r\n"@ + spec_to_crlf(m.body) + spec_render_sig(
        m.headers.signature,
    )
}

impl Msg {
    /// A fresh composition for `account` with the given headers; an empty
    /// sender list falls back to the account address and an unset signature
    /// falls back to the account signature.
    pub fn new_with_headers(account: &Account, headers: Headers) -> (m: Msg)
        ensures
            m@.headers.from == if headers@.from.len() == 0 {
                seq![crate::account::spec_address(account.display_name@, account.email@)]
            } else {
                headers@.from
            },
            m@.headers.signature == if headers@.signature is None {
                Some(account.signature@)
            } else {
                headers@.signature
            },
            m@.headers.to == headers@.to,
            m@.headers.cc == headers@.cc,
            m@.headers.bcc == headers@.bcc,
            m@.headers.in_reply_to == headers@.in_reply_to,
            m@.headers.subject == headers@.subject,
            m@.headers.encoding == headers@.encoding,
            m@.body == Seq::<char>::empty(),
            m@.attachments == Seq::<AttachmentModel>::empty(),
            m@.flags == Set::<Flag>::empty(),
            m@.raw == Seq::<char>::empty(),
    {
        let mut h = headers;
        if h.from.len() == 0 {
            let mut from: Vec<String> = Vec::new();
            from.push(account.address());
            h.from = from;
            proof {
                assert(h@.from =~= seq![
                    crate::account::spec_address(account.display_name@, account.email@),
                ]);
            }
        }
        if h.signature.is_none() {
            h.signature = Some(account.signature.clone());
        }
        let m = Msg {
            headers: h,
            body: Body { text: String::new() },
            attachments: Vec::new(),
            flags: Flags::new(),
            raw: String::new(),
        };
        proof {
            assert(m@.attachments =~= Seq::<AttachmentModel>::empty());
        }
        m
    }

    /// Attach one already-loaded file.
    pub fn add_attachment(&mut self, att: Attachment)
        ensures
            final(self)@ == (MsgModel {
                attachments: old(self)@.attachments.push(att@),
                ..old(self)@
            }),
    {
        self.attachments.push(att);
        proof {
            assert(self@.attachments =~= old(self)@.attachments.push(
                self.attachments@.last()@,
            ));
            assert(self@ =~= (MsgModel {
                attachments: old(self)@.attachments.push(self.attachments@.last()@),
                ..old(self)@
            }));
        }
    }

    /// The rendered text of the message.
    #[verifier::rlimit(60)]
    pub fn render(&self) -> (r: String)
        ensures
            r@ == spec_render(self@),
    {
        let mut r = String::new();
        r.append("From: ");
        let fr = join(&self.headers.from, ", ");
        r.append(fr.as_str());
        r.append("\r\n");
        r.append("To: ");
        let to = join(&self.headers.to, ", ");
        r.append(to.as_str());
        r.append("\r\n");
        match &self.headers.cc {
            Some(cc) => {
                r.append("Cc: ");
                let s = join(cc, ", ");
                r.append(s.as_str());
                r.append("\r\n");
            },
            None => {},
        }
        match &self.headers.bcc {
            Some(bcc) => {
                r.append("Bcc: ");
                let s = join(bcc, ", ");
                r.append(s.as_str());
                r.append("\r\n");
            },
            None => {},
        }
        match &self.headers.in_reply_to {
            Some(irt) => {
                r.append("In-Reply-To: ");
                r.append(irt.as_str());
                r.append("\r\n");
            },
            None => {},
        }
        match &self.headers.subject {
            Some(subject) => {
                r.append("Subject: ");
                r.append(subject.as_str());
                r.append("\r\n");
            },
            None => {},
        }
        r.append("\r\n");
        let body = to_crlf(self.body.text.as_str());
        r.append(body.as_str());
        match &self.headers.signature {
            Some(sig) => {
                if !sig.as_str().is_empty() {
                    r.append("\r\n-- \r\n");
                    let s = to_crlf(sig.as_str());
                    r.append(s.as_str());
                }
            },
            None => {},
        }
        proof {
            assert(r@ =~= spec_render(self@));
        }
        r
    }

    /// The transport-sendable form. Succeeds if and only if the required
    /// headers are present: at least one sender and at least one recipient.
    pub fn to_sendable_msg(&self) -> (r: Result<SendableMsg, Error>)
        ensures
            r is Ok <==> (self@.headers.from.len() > 0 && self@.headers.to.len() > 0),
            self@.headers.from.len() == 0 ==> r == Err::<SendableMsg, Error>(Error::MissingSender),
            self@.headers.from.len() > 0 && self@.headers.to.len() == 0 ==> r == Err::<
                SendableMsg,
                Error,
            >(Error::MissingRecipient),
            r matches Ok(s) ==> s@ == spec_render(self@),
    {
        if self.headers.from.len() == 0 {
            Err(Error::MissingSender)
        } else if self.headers.to.len() == 0 {
            Err(Error::MissingRecipient)
        } else {
            Ok(SendableMsg { raw: self.render() })
        }
    }

    /// The raw source this message was parsed from.
    pub fn get_raw_as_string(&self) -> (r: String)
        ensures
            r@ == self@.raw,
    {
        self.raw.clone()
    }
}

/// The number of leading non-blank lines: the extent of a header block.
pub open spec fn spec_first_blank(lines: Seq<Seq<char>>) -> int
    decreases lines.len(),
{
    if lines.len() == 0 {
        0
    } else if lines[0].len() == 0 {
        0
    } else {
        1 + spec_first_blank(lines.drop_first())
    }
}

/// The comma-separated pieces of an address-list value, each with leading
/// spaces removed, empty pieces dropped.
pub open spec fn spec_addr_accum(pieces: Seq<Seq<char>>) -> Seq<Seq<char>>
    decreases pieces.len(),
{
    if pieces.len() == 0 {
        Seq::empty()
    } else {
        let rest = spec_addr_accum(pieces.drop_last());
        let p = spec_strip_lead_sp(pieces.last());
        if p.len() > 0 {
            rest.push(p)
        } else {
            rest
        }
    }
}

/// The addresses named by a header value.
pub open spec fn spec_addr_list(v: Seq<char>) -> Seq<Seq<char>> {
    spec_addr_accum(spec_split(v, ','))
}

/// The effect of one well-formed header line on a header block: recognised
/// keys set their field, an unknown key changes nothing, and a repeated key
/// overrides the earlier value.
pub open spec fn spec_apply_header(h: HeadersModel, line: Seq<char>) -> HeadersModel {
    let k = spec_find_ch(line, ':');
    let key = line.take(k);
    let value = spec_strip_lead_sp(line.skip(k + 1));
    if key == "From"@ {
        HeadersModel { from: spec_addr_list(value), ..h }
    } else if key == "To"@ {
        HeadersModel { to: spec_addr_list(value), ..h }
    } else if key == "Cc"@ {
        HeadersModel { cc: Some(spec_addr_list(value)), ..h }
    } else if key == "Bcc"@ {
        HeadersModel { bcc: Some(spec_addr_list(value)), ..h }
    } else if key == "In-Reply-To"@ {
        HeadersModel { in_reply_to: Some(value), ..h }
    } else if key == "Subject"@ {
        HeadersModel { subject: Some(value), ..h }
    } else {
        h
    }
}

/// The header block described by a sequence of header lines, applied in
/// order over the empty block.
pub open spec fn spec_headers_of(lines: Seq<Seq<char>>) -> HeadersModel
    decreases lines.len(),
{
    if lines.len() == 0 {
        spec_headers_empty()
    } else {
        spec_apply_header(spec_headers_of(lines.drop_last()), lines.last())
    }
}

/// The header lines of raw message text: the lines before the first blank
/// line.
pub open spec fn spec_header_lines(s: Seq<char>) -> Seq<Seq<char>> {
    spec_lines(s).take(spec_first_blank(spec_lines(s)))
}

/// The body lines of raw message text: the lines after the first blank
/// line, none when there is no blank line.
pub open spec fn spec_body_lines(s: Seq<char>) -> Seq<Seq<char>> {
    let lines = spec_lines(s);
    let fb = spec_first_blank(lines);
    if fb < lines.len() {
        lines.skip(fb + 1)
    } else {
        Seq::empty()
    }
}

/// Whether raw message text parses: every header line carries a colon.
pub open spec fn spec_parse_ok(s: Seq<char>) -> bool {
    forall|i: int|
        0 <= i < spec_header_lines(s).len() ==> spec_find_ch(
            #[trigger] spec_header_lines(s)[i],
            ':',
        ) < spec_header_lines(s)[i].len()
}

/// The message described by raw message text.
pub open spec fn spec_parse(s: Seq<char>) -> MsgModel {
    MsgModel {
        headers: spec_headers_of(spec_header_lines(s)),
        body: spec_join(spec_body_lines(s), "\n"@),
        attachments: Seq::empty(),
        flags: Set::empty(),
        raw: s,
    }
}

/// The header block of a forwarding: the sender becomes `sender`, the
/// recipients are cleared for the user to fill in, the subject gains the
/// conventional prefix, and the signature becomes `sig`.
pub open spec fn spec_forward_headers(
    h: HeadersModel,
    sender: Seq<char>,
    sig: Seq<char>,
) -> HeadersModel {
    HeadersModel {
        from: seq![sender],
        to: Seq::empty(),
        cc: None,
        bcc: None,
        in_reply_to: None,
        subject: Some(Msg::spec_prefixed_subject("Fwd: "@, h.subject)),
        signature: Some(sig),
        encoding: h.encoding,
    }
}

/// The header block of a reply: the old senders become the recipients, the
/// sender becomes `sender`, the subject gains the conventional prefix, and
/// with `all` the old carbon-copy list without `own_email` is kept.
pub open spec fn spec_reply_headers(
    h: HeadersModel,
    sender: Seq<char>,
    own_email: Seq<char>,
    sig: Seq<char>,
    all: bool,
) -> HeadersModel {
    HeadersModel {
        from: seq![sender],
        to: h.from,
        cc: if all {
            Some(Msg::spec_reply_cc(h.cc, own_email))
        } else {
            None
        },
        bcc: None,
        in_reply_to: None,
        subject: Some(Msg::spec_prefixed_subject("Re: "@, h.subject)),
        signature: Some(sig),
        encoding: h.encoding,
    }
}

/// Parse a comma-separated address-list header value.
pub fn parse_addr_list(value: &str) -> (r: Vec<String>)
    ensures
        r.deep_view() == spec_addr_list(value@),
{
    let pieces = split_ch(value, ',');
    let ghost pdv = pieces.deep_view();
    let mut r: Vec<String> = Vec::new();
    let mut i: usize = 0;
    proof {
        assert(pdv.take(0) =~= Seq::<Seq<char>>::empty());
    }
    while i < pieces.len()
        invariant
            i <= pieces.len(),
            pdv == pieces.deep_view(),
            pdv == spec_split(value@, ','),
            pdv.len() == pieces@.len(),
            forall|j: int| 0 <= j < pieces@.len() ==> pdv[j] == #[trigger] pieces@[j]@,
            r.deep_view() =~= spec_addr_accum(pdv.take(i as int)),
        decreases pieces.len() - i,
    {
        let st = strip_lead_sp(pieces[i].as_str());
        let ghost rdv = r.deep_view();
        proof {
            assert(pdv.take(i + 1 as int).drop_last() =~= pdv.take(i as int));
            assert(pdv.take(i + 1 as int).last() == pdv[i as int]);
        }
        if !st.as_str().is_empty() {
            r.push(st);
            proof {
                assert(r.deep_view() =~= rdv.push(spec_strip_lead_sp(pdv[i as int])));
            }
        }
        i = i + 1;
    }
    proof {
        assert(pdv.take(pieces@.len() as int) =~= pdv);
    }
    r
}

impl Msg {
    /// Parse raw message text: a header block of `Key: value` lines up to
    /// the first blank line, then the body. Succeeds if and only if every
    /// header line carries a colon.
    pub fn parse(raw: &str) -> (r: Result<Msg, Error>)
        ensures
            r is Ok <==> spec_parse_ok(raw@),
            r matches Ok(m) ==> m@ == spec_parse(raw@),
            !spec_parse_ok(raw@) ==> r == Err::<Msg, Error>(Error::MalformedMessage),
    {
        let lines = split_lines(raw);
        let ghost ldv = lines.deep_view();
        let mut fb: usize = 0;
        proof {
            assert(ldv.skip(0) =~= ldv);
        }
        while fb < lines.len() && !lines[fb].as_str().is_empty()
            invariant
                fb <= lines.len(),
                ldv == lines.deep_view(),
                ldv.len() == lines@.len(),
                forall|j: int| 0 <= j < lines@.len() ==> ldv[j] == #[trigger] lines@[j]@,
                spec_first_blank(ldv) == fb + spec_first_blank(ldv.skip(fb as int)),
            decreases lines.len() - fb,
        {
            proof {
                assert(ldv.skip(fb as int).len() > 0);
                assert(ldv.skip(fb as int)[0] == ldv[fb as int]);
                assert(ldv.skip(fb as int).drop_first() =~= ldv.skip(fb + 1 as int));
            }
            fb = fb + 1;
        }
        proof {
            if fb < lines@.len() {
                assert(ldv.skip(fb as int)[0] == ldv[fb as int]);
                assert(spec_first_blank(ldv.skip(fb as int)) == 0);
            } else {
                assert(ldv.skip(fb as int).len() == 0);
            }
            assert(fb as int == spec_first_blank(ldv));
            assert(spec_header_lines(raw@) == ldv.take(fb as int));
        }
        let ghost hl = ldv.take(fb as int);
        let mut h = Headers::empty();
        let mut i: usize = 0;
        proof {
            assert(hl.take(0) =~= Seq::<Seq<char>>::empty());
            assert(h@ =~= spec_headers_of(hl.take(0)));
        }
        while i < fb
            invariant
                i <= fb,
                fb <= lines@.len(),
                ldv == lines.deep_view(),
                ldv.len() == lines@.len(),
                forall|j: int| 0 <= j < lines@.len() ==> ldv[j] == #[trigger] lines@[j]@,
                hl == ldv.take(fb as int),
                hl == spec_header_lines(raw@),
                h@ == spec_headers_of(hl.take(i as int)),
                forall|j: int|
                    0 <= j < i ==> spec_find_ch(#[trigger] hl[j], ':') < hl[j].len(),
            decreases fb - i,
        {
            let lc = str_to_chars(lines[i].as_str());
            let k = find_ch(&lc, ':');
            if k == lc.len() {
                proof {
                    assert(spec_find_ch(hl[i as int], ':') >= hl[i as int].len());
                    assert(!spec_parse_ok(raw@));
                }
                return Err(Error::MalformedMessage);
            }
            let key_chars = subchars(&lc, 0, k);
            let key = chars_to_string(&key_chars);
            let rest_chars = subchars(&lc, k + 1, lc.len());
            let rest = chars_to_string(&rest_chars);
            let value = strip_lead_sp(rest.as_str());
            let ghost hm = h@;
            proof {
                assert(key@ =~= hl[i as int].take(k as int));
                assert(rest@ =~= hl[i as int].skip(k + 1 as int));
            }
            if key == String::from_str("From") {
                h.from = parse_addr_list(value.as_str());
            } else if key == String::from_str("To") {
                h.to = parse_addr_list(value.as_str());
            } else if key == String::from_str("Cc") {
                h.cc = Some(parse_addr_list(value.as_str()));
            } else if key == String::from_str("Bcc") {
                h.bcc = Some(parse_addr_list(value.as_str()));
            } else if key == String::from_str("In-Reply-To") {
                h.in_reply_to = Some(value);
            } else if key == String::from_str("Subject") {
                h.subject = Some(value);
            }
            proof {
                assert(hl.take(i + 1 as int).drop_last() =~= hl.take(i as int));
                assert(hl.take(i + 1 as int).last() == hl[i as int]);
                assert(h@ =~= spec_apply_header(hm, hl[i as int]));
            }
            i = i + 1;
        }
        proof {
            assert(hl.take(fb as int) =~= hl);
        }
        let mut body_lines: Vec<String> = Vec::new();
        if fb < lines.len() {
            let mut j: usize = fb + 1;
            proof {
                assert(body_lines.deep_view() =~= ldv.subrange(fb + 1 as int, fb + 1 as int));
            }
            while j < lines.len()
                invariant
                    fb + 1 <= j <= lines@.len(),
                    ldv == lines.deep_view(),
                    ldv.len() == lines@.len(),
                    forall|jj: int| 0 <= jj < lines@.len() ==> ldv[jj] == #[trigger] lines@[jj]@,
                    body_lines.deep_view() =~= ldv.subrange(fb + 1 as int, j as int),
                decreases lines@.len() - j,
            {
                let ghost bdv = body_lines.deep_view();
                body_lines.push(lines[j].clone());
                proof {
                    assert(body_lines.deep_view() =~= bdv.push(ldv[j as int]));
                    assert(ldv.subrange(fb + 1 as int, j + 1 as int) =~= ldv.subrange(
                        fb + 1 as int,
                        j as int,
                    ).push(ldv[j as int]));
                }
                j = j + 1;
            }
            proof {
                assert(ldv.subrange(fb + 1 as int, lines@.len() as int) =~= ldv.skip(fb + 1 as int));
                assert(body_lines.deep_view() =~= spec_body_lines(raw@));
            }
        } else {
            proof {
                assert(body_lines.deep_view() =~= spec_body_lines(raw@));
            }
        }
        let body = join(&body_lines, "\n");
        let m = Msg {
            headers: h,
            body: Body { text: body },
            attachments: Vec::new(),
            flags: Flags::new(),
            raw: raw.to_owned(),
        };
        proof {
            assert(m@.attachments =~= Seq::<AttachmentModel>::empty());
            assert(m@ =~= spec_parse(raw@));
        }
        Ok(m)
    }

    /// The subject with a prefix in front, an absent subject counting as
    /// empty.
    pub open spec fn spec_prefixed_subject(
        prefix: Seq<char>,
        subject: Option<Seq<char>>,
    ) -> Seq<char> {
        match subject {
            Some(s) => prefix + s,
            None => prefix,
        }
    }

    /// Turn this message into a forwarding of itself for `account`: the
    /// sender becomes the account, the recipients are cleared for the user
    /// to fill in, the subject gains the conventional prefix, and body,
    /// attachments and flags are kept.
    pub fn change_to_forwarding(&mut self, account: &Account)
        ensures
            final(self)@ == (MsgModel {
                headers: spec_forward_headers(
                    old(self)@.headers,
                    crate::account::spec_address(account.display_name@, account.email@),
                    account.signature@,
                ),
                ..old(self)@
            }),
    {
        let mut from: Vec<String> = Vec::new();
        from.push(account.address());
        self.headers.from = from;
        self.headers.to = Vec::new();
        self.headers.cc = None;
        self.headers.bcc = None;
        self.headers.in_reply_to = None;
        let mut subject = String::from_str("Fwd: ");
        match &self.headers.subject {
            Some(s) => {
                subject.append(s.as_str());
            },
            None => {},
        }
        self.headers.subject = Some(subject);
        self.headers.signature = Some(account.signature.clone());
        proof {
            assert(self@.headers.from =~= seq![
                crate::account::spec_address(account.display_name@, account.email@),
            ]);
            assert(self@.headers.to =~= Seq::<Seq<char>>::empty());
            assert(self@ =~= (MsgModel {
                headers: spec_forward_headers(
                    old(self)@.headers,
                    crate::account::spec_address(account.display_name@, account.email@),
                    account.signature@,
                ),
                ..old(self)@
            }));
        }
    }

    /// Keeping an address means it is not the account's own.
    pub open spec fn spec_not_own(own: Seq<char>) -> spec_fn(Seq<char>) -> bool {
        |a: Seq<char>| a != own
    }

    /// The reply-all carbon-copy list: the old one without the account's
    /// own address.
    pub open spec fn spec_reply_cc(
        cc: Option<Seq<Seq<char>>>,
        own: Seq<char>,
    ) -> Seq<Seq<char>> {
        match cc {
            Some(items) => items.filter(Msg::spec_not_own(own)),
            None => Seq::empty(),
        }
    }

    /// Turn this message into a reply to itself for `account`: the old
    /// senders become the recipients, the sender becomes the account, the
    /// subject gains the conventional prefix, and with `all` the old
    /// carbon-copy list (without the account's own address) is kept.
    pub fn change_to_reply(&mut self, account: &Account, all: bool)
        ensures
            final(self)@ == (MsgModel {
                headers: spec_reply_headers(
                    old(self)@.headers,
                    crate::account::spec_address(account.display_name@, account.email@),
                    account.email@,
                    account.signature@,
                    all,
                ),
                ..old(self)@
            }),
    {
        let ghost before = self@;
        let mut from: Vec<String> = Vec::new();
        from.push(account.address());
        let to = self.headers.from.clone();
        self.headers.from = from;
        self.headers.to = to;
        proof {
            assert(self@.headers.to =~= before.headers.from);
        }
        if all {
            let mut kept: Vec<String> = Vec::new();
            match &self.headers.cc {
                Some(items) => {
                    let mut i: usize = 0;
                    proof {
                        reveal(Seq::filter);
                        assert(items.deep_view().take(0) =~= Seq::<Seq<char>>::empty());
                        assert(kept.deep_view() =~= items.deep_view().take(0).filter(
                            Msg::spec_not_own(account.email@),
                        ));
                    }
                    while i < items.len()
                        invariant
                            i <= items@.len(),
                            items.deep_view().len() == items@.len(),
                            forall|j: int|
                                0 <= j < items@.len() ==> items.deep_view()[j]
                                    == #[trigger] items@[j]@,
                            kept.deep_view() =~= items.deep_view().take(i as int).filter(
                                Msg::spec_not_own(account.email@),
                            ),
                        decreases items@.len() - i,
                    {
                        let ghost kdv = kept.deep_view();
                        let ghost idv = items.deep_view();
                        if !(items[i] == account.email) {
                            kept.push(items[i].clone());
                            proof {
                                assert(kept.deep_view() =~= kdv.push(idv[i as int]));
                            }
                        }
                        proof {
                            reveal(Seq::filter);
                            let f = Msg::spec_not_own(account.email@);
                            assert(idv.take(i + 1 as int).drop_last() =~= idv.take(i as int));
                            assert(idv.take(i + 1 as int).last() == idv[i as int]);
                            assert(f(idv[i as int]) == (idv[i as int] != account.email@));
                            assert(idv.take(i + 1 as int).len() > 0);
                            if idv[i as int] != account.email@ {
                                assert(idv.take(i + 1 as int).filter(f) == idv.take(i as int).filter(
                                    f,
                                ).push(idv[i as int]));
                                assert(kept.deep_view() =~= idv.take(i + 1 as int).filter(f));
                            } else {
                                assert(idv.take(i + 1 as int).filter(f) == idv.take(i as int).filter(
                                    f,
                                ));
                                assert(kept.deep_view() =~= idv.take(i + 1 as int).filter(f));
                            }
                        }
                        i = i + 1;
                    }
                    proof {
                        assert(items.deep_view().take(items@.len() as int) =~= items.deep_view());
                    }
                },
                None => {},
            }
            proof {
                assert(kept.deep_view() =~= Msg::spec_reply_cc(before.headers.cc, account.email@));
            }
            self.headers.cc = Some(kept);
        } else {
            self.headers.cc = None;
        }
        self.headers.bcc = None;
        self.headers.in_reply_to = None;
        let mut subject = String::from_str("Re: ");
        match &self.headers.subject {
            Some(s) => {
                subject.append(s.as_str());
            },
            None => {},
        }
        self.headers.subject = Some(subject);
        self.headers.signature = Some(account.signature.clone());
        proof {
            assert(self@.headers.from =~= seq![
                crate::account::spec_address(account.display_name@, account.email@),
            ]);
            assert(self@ =~= (MsgModel {
                headers: spec_reply_headers(
                    before.headers,
                    crate::account::spec_address(account.display_name@, account.email@),
                    account.email@,
                    account.signature@,
                    all,
                ),
                ..before
            }));
        }
    }
}

} // verus!
