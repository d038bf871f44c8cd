//! In-memory collaborators: a mail store, a mail transport and an output
//! sink holding their observable state in plain vectors, with injectable
//! failures. They make every ordering invariant of the operations
//! exercisable without a network, and they are verified against the same
//! interface contracts any backend is trusted to meet.

use crate::error::Error;
use crate::flag::Flag;
use crate::flag::Flags;
use crate::mbox::Mbox;
use crate::msg::Attachment;
use crate::msg::Body;
use crate::msg::Headers;
use crate::msg::Msg;
use crate::msg::MsgModel;
use crate::store::MailStore;
use crate::store::MailTransport;
use crate::store::MsgSummary;
use crate::store::MsgSummaryModel;
use crate::store::Output;
use crate::store::StoreModel;
use crate::store::StoreRequest;
use crate::store::spec_box_push;
use crate::store::spec_summaries_of;
use crate::store::spec_summary_of;
use crate::textutil::contains_sub;
use vstd::prelude::*;

verus! {

/// A copy of a flag set, element for element.
fn clone_flags(f: &Flags) -> (r: Flags)
    ensures
        r@ == f@,
{
    Flags::from_vec(f.to_vec())
}

/// A copy of a vector of strings, element for element.
fn clone_strings(v: &Vec<String>) -> (r: Vec<String>)
    ensures
        r.deep_view() == v.deep_view(),
{
    let mut r: Vec<String> = Vec::new();
    let mut i: usize = 0;
    while i < v.len()
        invariant
            i <= v@.len(),
            r@.len() == i,
            forall|j: int| 0 <= j < i ==> #[trigger] r@[j]@ == v@[j]@,
        decreases v@.len() - i,
    {
        r.push(v[i].clone());
        i = i + 1;
    }
    proof {
        assert(r.deep_view() =~= v.deep_view());
    }
    r
}

/// A copy of a message, field for field, with the same mathematical value.
pub fn clone_msg(m: &Msg) -> (r: Msg)
    ensures
        r@ == m@,
{
    let cc = match &m.headers.cc {
        Some(v) => Some(clone_strings(v)),
        None => None,
    };
    let bcc = match &m.headers.bcc {
        Some(v) => Some(clone_strings(v)),
        None => None,
    };
    let headers = Headers {
        from: clone_strings(&m.headers.from),
        to: clone_strings(&m.headers.to),
        cc,
        bcc,
        in_reply_to: match &m.headers.in_reply_to {
            Some(s) => Some(s.clone()),
            None => None,
        },
        subject: match &m.headers.subject {
            Some(s) => Some(s.clone()),
            None => None,
        },
        signature: match &m.headers.signature {
            Some(s) => Some(s.clone()),
            None => None,
        },
        encoding: m.headers.encoding,
    };
    let mut atts: Vec<Attachment> = Vec::new();
    let mut i: usize = 0;
    while i < m.attachments.len()
        invariant
            i <= m.attachments@.len(),
            atts@.len() == i,
            forall|j: int| 0 <= j < i ==> #[trigger] atts@[j]@ == m.attachments@[j]@,
        decreases m.attachments@.len() - i,
    {
        let a = &m.attachments[i];
        let c = Attachment { filename: a.filename.clone(), body_raw: a.body_raw.clone() };
        proof {
            assert(c@.body_raw =~= a@.body_raw);
        }
        atts.push(c);
        i = i + 1;
    }
    let r = Msg {
        headers,
        body: Body { text: m.body.text.clone() },
        attachments: atts,
        flags: clone_flags(&m.flags),
        raw: m.raw.clone(),
    };
    proof {
        assert(r@.attachments =~= m@.attachments);
        assert(r@.headers =~= m@.headers);
        assert(r@ =~= m@);
    }
    r
}

/// The message a uid names in an association list: the first entry wins.
pub open spec fn spec_cur_find(s: Seq<(String, Msg)>, uid: Seq<char>) -> Option<MsgModel>
    decreases s.len(),
{
    if s.len() == 0 {
        None
    } else if s[0].0@ == uid {
        Some(s[0].1@)
    } else {
        spec_cur_find(s.drop_first(), uid)
    }
}

proof fn lemma_cur_find_absent(s: Seq<(String, Msg)>, uid: Seq<char>)
    ensures
        spec_cur_find(s, uid) is None <==> (forall|i: int|
            0 <= i < s.len() ==> (#[trigger] s[i]).0@ != uid),
    decreases s.len(),
{
    if s.len() > 0 {
        lemma_cur_find_absent(s.drop_first(), uid);
        assert(forall|i: int|
            0 < i < s.len() ==> s.drop_first()[i - 1] == #[trigger] s[i]);
        assert(forall|i: int|
            0 <= i < s.drop_first().len() ==> #[trigger] s.drop_first()[i] == s[i + 1]);
    }
}

proof fn lemma_cur_find_push(s: Seq<(String, Msg)>, e: (String, Msg), uid: Seq<char>)
    ensures
        spec_cur_find(s.push(e), uid) == (if spec_cur_find(s, uid) is Some {
            spec_cur_find(s, uid)
        } else if e.0@ == uid {
            Some(e.1@)
        } else {
            None::<MsgModel>
        }),
    decreases s.len(),
{
    if s.len() == 0 {
        assert(s.push(e)[0] == e);
        assert(s.push(e).len() == 1);
        assert(s.push(e).drop_first() =~= Seq::<(String, Msg)>::empty());
        assert(spec_cur_find(Seq::<(String, Msg)>::empty(), uid) is None);
    } else {
        assert(s.push(e)[0] == s[0]);
        assert(s.push(e).drop_first() =~= s.drop_first().push(e));
        lemma_cur_find_push(s.drop_first(), e, uid);
    }
}

proof fn lemma_cur_find_update(s: Seq<(String, Msg)>, i: int, m2: Msg, uid: Seq<char>)
    requires
        0 <= i < s.len(),
        forall|j: int| 0 <= j < i ==> (#[trigger] s[j]).0@ != s[i].0@,
    ensures
        spec_cur_find(s.update(i, (s[i].0, m2)), uid) == (if uid == s[i].0@ {
            Some(m2@)
        } else {
            spec_cur_find(s, uid)
        }),
    decreases i,
{
    let s2 = s.update(i, (s[i].0, m2));
    if i == 0 {
        assert(s2[0] == (s[0].0, m2));
        if uid != s[0].0@ {
            assert(s2.drop_first() =~= s.drop_first());
        }
    } else {
        assert(s2[0] == s[0]);
        assert(s2.drop_first() =~= s.drop_first().update(i - 1, (s.drop_first()[i - 1].0, m2)));
        assert(forall|j: int|
            0 <= j < i - 1 ==> (#[trigger] s.drop_first()[j]).0@ == s[j + 1].0@);
        lemma_cur_find_update(s.drop_first(), i - 1, m2, uid);
    }
}

/// Whether the uid of entry `i` occurs somewhere earlier in the list.
fn key_seen_before(v: &Vec<(String, Msg)>, i: usize) -> (r: bool)
    requires
        i < v@.len(),
    ensures
        r <==> (exists|j: int| 0 <= j < i && (#[trigger] v@[j]).0@ == v@[i as int].0@),
{
    let mut j: usize = 0;
    while j < i
        invariant
            j <= i,
            i < v@.len(),
            forall|k: int| 0 <= k < j ==> (#[trigger] v@[k]).0@ != v@[i as int].0@,
        decreases i - j,
    {
        if v[j].0 == v[i].0 {
            return true;
        }
        j = j + 1;
    }
    false
}

/// The messages appended into a named mailbox, in order: the concatenation
/// of every entry carrying that name.
pub open spec fn spec_box_of(s: Seq<(String, Vec<Msg>)>, name: Seq<char>) -> Seq<MsgModel>
    decreases s.len(),
{
    if s.len() == 0 {
        Seq::empty()
    } else {
        spec_box_of(s.drop_last(), name) + (if s.last().0@ == name {
            s.last().1@.map_values(|m: Msg| m@)
        } else {
            Seq::empty()
        })
    }
}

/// Whether anything was ever appended into a named mailbox.
pub open spec fn spec_has_box(s: Seq<(String, Vec<Msg>)>, name: Seq<char>) -> bool
    decreases s.len(),
{
    if s.len() == 0 {
        false
    } else {
        s.last().0@ == name || spec_has_box(s.drop_last(), name)
    }
}

proof fn lemma_box_of_absent(s: Seq<(String, Vec<Msg>)>, name: Seq<char>)
    requires
        !spec_has_box(s, name),
    ensures
        spec_box_of(s, name) == Seq::<MsgModel>::empty(),
    decreases s.len(),
{
    if s.len() > 0 {
        lemma_box_of_absent(s.drop_last(), name);
        assert(spec_box_of(s, name) =~= Seq::<MsgModel>::empty());
    }
}

/// An in-memory mail store. The selected mailbox is an association list
/// from uid to message; the named mailboxes accumulate appends in order.
/// Each kind of call can be configured to fail, to exercise every error
/// path of the operations.
pub struct MemStore {
    cur: Vec<(String, Msg)>,
    boxes: Vec<(String, Vec<Msg>)>,
    reqs: Ghost<Seq<StoreRequest>>,
    fail_append: bool,
    fail_flags: bool,
    fail_expunge: bool,
    fail_fetch: bool,
    gone: bool,
}

impl MemStore {
    /// The selected mailbox as a map.
    pub closed spec fn cur_map(&self) -> Map<Seq<char>, MsgModel> {
        Map::new(
            |uid: Seq<char>| spec_cur_find(self.cur@, uid) is Some,
            |uid: Seq<char>| spec_cur_find(self.cur@, uid)->Some_0,
        )
    }

    /// The named mailboxes as a map.
    pub closed spec fn boxes_map(&self) -> Map<Seq<char>, Seq<MsgModel>> {
        Map::new(
            |name: Seq<char>| spec_has_box(self.boxes@, name),
            |name: Seq<char>| spec_box_of(self.boxes@, name),
        )
    }

    /// An empty store with nothing failing.
    pub fn new() -> (r: MemStore)
        ensures
            r.st().cur == Map::<Seq<char>, MsgModel>::empty(),
            r.st().boxes == Map::<Seq<char>, Seq<MsgModel>>::empty(),
            r.requests() == Seq::<StoreRequest>::empty(),
            !r.released(),
    {
        let r = MemStore {
            cur: Vec::new(),
            boxes: Vec::new(),
            reqs: Ghost(Seq::empty()),
            fail_append: false,
            fail_flags: false,
            fail_expunge: false,
            fail_fetch: false,
            gone: false,
        };
        proof {
            assert(r.cur_map() =~= Map::<Seq<char>, MsgModel>::empty());
            assert(r.boxes_map() =~~= Map::<Seq<char>, Seq<MsgModel>>::empty());
        }
        r
    }

    /// Put `m` into the selected mailbox under `uid`, replacing what the
    /// uid named before.
    pub fn put_cur(&mut self, uid: &str, m: Msg)
        ensures
            final(self).st() == (StoreModel {
                cur: old(self).st().cur.insert(uid@, m@),
                ..old(self).st()
            }),
            final(self).released() == old(self).released(),
    {
        let ghost s0 = self.cur@;
        let n = self.cur.len();
        let mut i: usize = 0;
        proof {
            assert(s0.skip(0) =~= s0);
        }
        while i < n
            invariant
                i <= n,
                n == self.cur@.len(),
                self.cur@ == s0,
                s0 == old(self).cur@,
                self.boxes@ == old(self).boxes@,
                self.gone == old(self).gone,
                self.reqs == old(self).reqs,
                spec_cur_find(s0, uid@) == spec_cur_find(s0.skip(i as int), uid@),
                forall|j: int| 0 <= j < i ==> (#[trigger] s0[j]).0@ != uid@,
            decreases n - i,
        {
            proof {
                assert(s0.skip(i as int)[0] == s0[i as int]);
                assert(s0.skip(i as int).drop_first() =~= s0.skip(i + 1 as int));
            }
            if self.cur[i].0 == uid.to_owned() {
                let key = self.cur[i].0.clone();
                self.cur[i] = (key, m);
                proof {
                    assert(self.cur@ =~= s0.update(i as int, (s0[i as int].0, m)));
                    lemma_cur_find_update(s0, i as int, m, uid@);
                    assert forall|u: Seq<char>|
                        spec_cur_find(self.cur@, u) == (if u == uid@ {
                            Some(m@)
                        } else {
                            spec_cur_find(s0, u)
                        }) by {
                        lemma_cur_find_update(s0, i as int, m, u);
                    }
                    assert(self.cur_map() =~~= old(self).cur_map().insert(uid@, m@));
                    assert(self.boxes_map() =~~= old(self).boxes_map());
                    assert(self.st() =~= (StoreModel {
                        cur: old(self).st().cur.insert(uid@, m@),
                        ..old(self).st()
                    }));
                }
                return ;
            }
            i = i + 1;
        }
        proof {
            assert(s0.skip(n as int).len() == 0);
            assert(spec_cur_find(s0, uid@) is None);
        }
        self.cur.push((uid.to_owned(), m));
        proof {
            assert forall|u: Seq<char>|
                spec_cur_find(self.cur@, u) == (if u == uid@ {
                    Some(m@)
                } else {
                    spec_cur_find(s0, u)
                }) by {
                lemma_cur_find_push(s0, (self.cur@.last().0, self.cur@.last().1), u);
                if u != uid@ {
                    assert(spec_cur_find(self.cur@, u) == spec_cur_find(s0, u));
                } else {
                    lemma_cur_find_absent(s0, uid@);
                }
            }
            lemma_cur_find_absent(s0, uid@);
            assert(self.cur_map() =~~= old(self).cur_map().insert(uid@, m@));
            assert(self.boxes_map() =~~= old(self).boxes_map());
            assert(self.st() =~= (StoreModel {
                cur: old(self).st().cur.insert(uid@, m@),
                ..old(self).st()
            }));
        }
    }

    /// Configure whether appends fail.
    pub fn set_fail_append(&mut self, b: bool)
        ensures
            final(self).st() == old(self).st(),
            final(self).released() == old(self).released(),
    {
        self.fail_append = b;
    }

    /// Configure whether flag changes fail.
    pub fn set_fail_flags(&mut self, b: bool)
        ensures
            final(self).st() == old(self).st(),
            final(self).released() == old(self).released(),
    {
        self.fail_flags = b;
    }

    /// Configure whether purges fail.
    pub fn set_fail_expunge(&mut self, b: bool)
        ensures
            final(self).st() == old(self).st(),
            final(self).released() == old(self).released(),
    {
        self.fail_expunge = b;
    }

    /// Configure whether fetches fail.
    pub fn set_fail_fetch(&mut self, b: bool)
        ensures
            final(self).st() == old(self).st(),
            final(self).released() == old(self).released(),
    {
        self.fail_fetch = b;
    }

    /// Look at the message a uid names, without a session.
    pub fn peek_cur(&self, uid: &str) -> (r: Option<Msg>)
        ensures
            match r {
                Some(m) => self.st().cur.dom().contains(uid@) && m@ == self.st().cur[uid@],
                None => !self.st().cur.dom().contains(uid@),
            },
    {
        let ghost s0 = self.cur@;
        let n = self.cur.len();
        let mut i: usize = 0;
        proof {
            assert(s0.skip(0) =~= s0);
        }
        while i < n
            invariant
                i <= n,
                n == self.cur@.len(),
                self.cur@ == s0,
                spec_cur_find(s0, uid@) == spec_cur_find(s0.skip(i as int), uid@),
            decreases n - i,
        {
            proof {
                assert(s0.skip(i as int)[0] == s0[i as int]);
                assert(s0.skip(i as int).drop_first() =~= s0.skip(i + 1 as int));
            }
            if self.cur[i].0 == uid.to_owned() {
                return Some(clone_msg(&self.cur[i].1));
            }
            i = i + 1;
        }
        proof {
            assert(s0.skip(n as int).len() == 0);
        }
        None
    }

    /// Look at the messages appended into a named mailbox, without a
    /// session; empty when nothing was ever appended there.
    pub fn peek_box(&self, name: &str) -> (r: Vec<Msg>)
        ensures
            self.st().boxes.dom().contains(name@) ==> r@.map_values(|m: Msg| m@)
                == self.st().boxes[name@],
            !self.st().boxes.dom().contains(name@) ==> r@.len() == 0,
    {
        let ghost s0 = self.boxes@;
        let mut r: Vec<Msg> = Vec::new();
        let mut i: usize = 0;
        proof {
            assert(r@.map_values(|m: Msg| m@) =~= spec_box_of(s0.take(0), name@));
        }
        while i < self.boxes.len()
            invariant
                i <= self.boxes@.len(),
                self.boxes@ == s0,
                r@.map_values(|m: Msg| m@) =~= spec_box_of(s0.take(i as int), name@),
            decreases self.boxes@.len() - i,
        {
            let ghost rv = r@.map_values(|m: Msg| m@);
            proof {
                assert(s0.take(i + 1 as int).drop_last() =~= s0.take(i as int));
                assert(s0.take(i + 1 as int).last() == s0[i as int]);
            }
            if self.boxes[i].0 == name.to_owned() {
                let batch = &self.boxes[i].1;
                let mut k: usize = 0;
                while k < batch.len()
                    invariant
                        k <= batch@.len(),
                        r@.map_values(|m: Msg| m@) =~= rv + batch@.map_values(|m: Msg| m@).take(
                            k as int,
                        ),
                    decreases batch@.len() - k,
                {
                    let ghost rv2 = r@.map_values(|m: Msg| m@);
                    r.push(clone_msg(&batch[k]));
                    proof {
                        assert(r@.map_values(|m: Msg| m@) =~= rv2.push(batch@[k as int]@));
                        assert(batch@.map_values(|m: Msg| m@).take(k + 1 as int) =~= batch@.map_values(
                            |m: Msg| m@,
                        ).take(k as int).push(batch@[k as int]@));
                        assert(r@.map_values(|m: Msg| m@) =~= rv + batch@.map_values(
                            |m: Msg| m@,
                        ).take(k + 1 as int));
                    }
                    k = k + 1;
                }
                proof {
                    assert(batch@.map_values(|m: Msg| m@).take(batch@.len() as int)
                        =~= batch@.map_values(|m: Msg| m@));
                    assert(r@.map_values(|m: Msg| m@) =~= spec_box_of(
                        s0.take(i + 1 as int),
                        name@,
                    ));
                }
            } else {
                proof {
                    assert(r@.map_values(|m: Msg| m@) =~= spec_box_of(
                        s0.take(i + 1 as int),
                        name@,
                    ));
                }
            }
            i = i + 1;
        }
        proof {
            assert(s0.take(s0.len() as int) =~= s0);
            if !spec_has_box(s0, name@) {
                lemma_box_of_absent(s0, name@);
            }
        }
        r
    }
}

impl MailStore for MemStore {
    closed spec fn st(&self) -> StoreModel {
        StoreModel { cur: self.cur_map(), boxes: self.boxes_map() }
    }

    closed spec fn released(&self) -> bool {
        self.gone
    }

    closed spec fn requests(&self) -> Seq<StoreRequest> {
        self.reqs@
    }

    fn get_msg(&mut self, uid: &str) -> (r: Result<Msg, Error>) {
        if self.fail_fetch {
            return Err(Error::StoreFailure);
        }
        match self.peek_cur(uid) {
            Some(m) => Ok(m),
            None => Err(Error::StoreFailure),
        }
    }

    fn append_msg(&mut self, mbox: &Mbox, msg: &Msg) -> (r: Result<(), Error>) {
        if self.fail_append {
            return Err(Error::StoreFailure);
        }
        let ghost s0 = self.boxes@;
        let mut batch: Vec<Msg> = Vec::new();
        batch.push(clone_msg(msg));
        self.boxes.push((mbox.name.clone(), batch));
        proof {
            let e = self.boxes@.last();
            assert(self.boxes@.drop_last() =~= s0);
            assert(e.1@.map_values(|m: Msg| m@) =~= seq![msg@]);
            assert forall|n: Seq<char>|
                spec_box_of(self.boxes@, n) == (if n == mbox@ {
                    spec_box_of(s0, n) + seq![msg@]
                } else {
                    spec_box_of(s0, n)
                }) by {
                assert(spec_box_of(self.boxes@, n) == spec_box_of(s0, n) + (if e.0@ == n {
                    e.1@.map_values(|m: Msg| m@)
                } else {
                    Seq::empty()
                }));
                if n != mbox@ {
                    assert(spec_box_of(s0, n) + Seq::<MsgModel>::empty() =~= spec_box_of(s0, n));
                }
            }
            assert(spec_box_of(s0, mbox@).push(msg@) =~= spec_box_of(s0, mbox@) + seq![msg@]);
            if !spec_has_box(s0, mbox@) {
                lemma_box_of_absent(s0, mbox@);
                assert(Seq::<MsgModel>::empty().push(msg@) =~= spec_box_of(s0, mbox@) + seq![
                    msg@,
                ]);
            }
            assert forall|n: Seq<char>|
                spec_has_box(self.boxes@, n) == (spec_has_box(s0, n) || n == mbox@) by {}
            assert(self.boxes_map() =~~= spec_box_push(old(self).boxes_map(), mbox@, msg@));
            assert(self.cur_map() =~~= old(self).cur_map());
            assert(self.st().cur =~~= old(self).st().cur);
            assert(self.st().boxes == spec_box_push(old(self).st().boxes, mbox@, msg@));
        }
        Ok(())
    }

    fn add_flags(&mut self, uid: &str, flags: &Flags) -> (r: Result<(), Error>) {
        if self.fail_flags {
            return Err(Error::StoreFailure);
        }
        let ghost s0 = self.cur@;
        let n = self.cur.len();
        let mut i: usize = 0;
        proof {
            assert(s0.skip(0) =~= s0);
        }
        while i < n
            invariant
                i <= n,
                n == self.cur@.len(),
                self.cur@ == s0,
                s0 == old(self).cur@,
                self.boxes@ == old(self).boxes@,
                self.gone == old(self).gone,
                self.reqs == old(self).reqs,
                !old(self).released(),
                spec_cur_find(s0, uid@) == spec_cur_find(s0.skip(i as int), uid@),
                forall|j: int| 0 <= j < i ==> (#[trigger] s0[j]).0@ != uid@,
            decreases n - i,
        {
            proof {
                assert(s0.skip(i as int)[0] == s0[i as int]);
                assert(s0.skip(i as int).drop_first() =~= s0.skip(i + 1 as int));
            }
            if self.cur[i].0 == uid.to_owned() {
                let key = self.cur[i].0.clone();
                let mut m2 = clone_msg(&self.cur[i].1);
                let fv = flags.to_vec();
                let ghost fset = flags@;
                let ghost base = m2@.flags;
                let mut k: usize = 0;
                proof {
                    assert(fv@.take(0).to_set() =~= Set::<Flag>::empty());
                    assert(m2@.flags =~= base.union(fv@.take(0).to_set()));
                }
                while k < fv.len()
                    invariant
                        k <= fv@.len(),
                        m2@ == (MsgModel {
                            flags: base.union(fv@.take(k as int).to_set()),
                            ..s0[i as int].1@
                        }),
                        base == s0[i as int].1@.flags,
                    decreases fv@.len() - k,
                {
                    let ghost before = m2@.flags;
                    m2.flags.insert(fv[k]);
                    proof {
                        assert(fv@.take(k + 1 as int) =~= fv@.take(k as int).push(fv@[k as int]));
                        assert forall|g: Flag|
                            fv@.take(k + 1 as int).to_set().contains(g) implies fv@.take(
                            k as int,
                        ).to_set().insert(fv@[k as int]).contains(g) by {
                            let idx = choose|idx: int|
                                0 <= idx < fv@.take(k + 1 as int).len() && #[trigger] fv@.take(
                                    k + 1 as int,
                                )[idx] == g;
                            if idx < k {
                                assert(fv@.take(k as int)[idx] == g);
                                assert(fv@.take(k as int).contains(g));
                            }
                        }
                        assert forall|g: Flag|
                            fv@.take(k as int).to_set().insert(fv@[k as int]).contains(g)
                            implies fv@.take(k + 1 as int).to_set().contains(g) by {
                            if g == fv@[k as int] {
                                assert(fv@.take(k + 1 as int)[k as int] == g);
                                assert(fv@.take(k + 1 as int).contains(g));
                            } else {
                                let idx = choose|idx: int|
                                    0 <= idx < k && #[trigger] fv@.take(k as int)[idx] == g;
                                assert(fv@.take(k + 1 as int)[idx] == g);
                                assert(fv@.take(k + 1 as int).contains(g));
                            }
                        }
                        assert(fv@.take(k + 1 as int).to_set() =~= fv@.take(
                            k as int,
                        ).to_set().insert(fv@[k as int]));
                        assert(before.insert(fv@[k as int]) =~= base.union(
                            fv@.take(k + 1 as int).to_set(),
                        ));
                        assert(m2@ =~= (MsgModel {
                            flags: base.union(fv@.take(k + 1 as int).to_set()),
                            ..s0[i as int].1@
                        }));
                    }
                    k = k + 1;
                }
                proof {
                    assert(fv@.take(fv@.len() as int) =~= fv@);
                    assert(fv@.to_set() == fset);
                    assert(m2@ =~= (MsgModel { flags: base.union(fset), ..s0[i as int].1@ }));
                }
                self.cur[i] = (key, m2);
                proof {
                    assert(s0[i as int].0@ == uid@);
                    assert(spec_cur_find(s0, uid@) == Some(s0[i as int].1@));
                    assert(self.cur@ =~= s0.update(i as int, (s0[i as int].0, m2)));
                    assert forall|u: Seq<char>|
                        spec_cur_find(self.cur@, u) == (if u == uid@ {
                            Some(m2@)
                        } else {
                            spec_cur_find(s0, u)
                        }) by {
                        lemma_cur_find_update(s0, i as int, m2, u);
                    }
                    assert(self.cur_map() =~~= crate::store::spec_add_flags(
                        old(self).cur_map(),
                        uid@,
                        fset,
                    ));
                    assert(self.boxes_map() =~~= old(self).boxes_map());
                    assert(self.st().boxes == old(self).st().boxes);
                    assert(self.st().cur == crate::store::spec_add_flags(
                        old(self).st().cur,
                        uid@,
                        flags@,
                    ));
                }
                return Ok(());
            }
            i = i + 1;
        }
        proof {
            assert(s0.skip(n as int).len() == 0);
        }
        Err(Error::StoreFailure)
    }

    fn expunge(&mut self) -> (r: Result<(), Error>) {
        if self.fail_expunge {
            return Err(Error::StoreFailure);
        }
        let ghost s0 = self.cur@;
        let mut kept: Vec<(String, Msg)> = Vec::new();
        let mut i: usize = 0;
        proof {
            lemma_cur_find_absent(kept@, Seq::<char>::empty());
        }
        while i < self.cur.len()
            invariant
                i <= self.cur@.len(),
                self.cur@ == s0,
                s0 == old(self).cur@,
                self.boxes@ == old(self).boxes@,
                self.gone == old(self).gone,
                self.reqs == old(self).reqs,
                forall|u: Seq<char>|
                    #[trigger] spec_cur_find(kept@, u) == (if spec_cur_find(s0.take(i as int), u)
                        is Some && !spec_cur_find(
                        s0.take(i as int),
                        u,
                    )->Some_0.flags.contains(Flag::Deleted) {
                        spec_cur_find(s0.take(i as int), u)
                    } else {
                        None::<MsgModel>
                    }),
            decreases self.cur@.len() - i,
        {
            let ghost k0 = kept@;
            proof {
                assert(s0.take(i + 1 as int).drop_last() =~= s0.take(i as int));
                assert(s0.take(i + 1 as int).last() == s0[i as int]);
            }
            let dup = key_seen_before(&self.cur, i);
            proof {
                let cur_key = s0[i as int].0@;
                lemma_cur_find_absent(s0.take(i as int), cur_key);
                assert(forall|j: int| 0 <= j < i ==> (#[trigger] s0.take(i as int)[j]) == s0[j]);
                if dup {
                    let j = choose|j: int| 0 <= j < i && (#[trigger] s0[j]).0@ == cur_key;
                    assert(s0.take(i as int)[j].0@ == cur_key);
                    assert(spec_cur_find(s0.take(i as int), cur_key) is Some);
                } else {
                    assert forall|j: int| 0 <= j < i implies (#[trigger] s0.take(i as int)[j]).0@
                        != cur_key by {
                        assert(s0.take(i as int)[j] == s0[j]);
                    }
                    assert(spec_cur_find(s0.take(i as int), cur_key) is None);
                }
            }
            let keep = !dup && !self.cur[i].1.flags.contains(Flag::Deleted);
            if keep {
                let key = self.cur[i].0.clone();
                let m2 = clone_msg(&self.cur[i].1);
                kept.push((key, m2));
                proof {
                    assert(kept@.drop_last() =~= k0);
                    assert(kept@.last().0@ == s0[i as int].0@ && kept@.last().1@
                        == s0[i as int].1@);
                    assert forall|u: Seq<char>|
                        #[trigger] spec_cur_find(kept@, u) == (if spec_cur_find(
                            s0.take(i + 1 as int),
                            u,
                        ) is Some && !spec_cur_find(
                            s0.take(i + 1 as int),
                            u,
                        )->Some_0.flags.contains(Flag::Deleted) {
                            spec_cur_find(s0.take(i + 1 as int), u)
                        } else {
                            None::<MsgModel>
                        }) by {
                        lemma_cur_find_push(k0, (kept@.last().0, kept@.last().1), u);
                        lemma_cur_find_push_take(s0, i as int, u);
                    }
                }
            } else {
                proof {
                    assert forall|u: Seq<char>|
                        #[trigger] spec_cur_find(kept@, u) == (if spec_cur_find(
                            s0.take(i + 1 as int),
                            u,
                        ) is Some && !spec_cur_find(
                            s0.take(i + 1 as int),
                            u,
                        )->Some_0.flags.contains(Flag::Deleted) {
                            spec_cur_find(s0.take(i + 1 as int), u)
                        } else {
                            None::<MsgModel>
                        }) by {
                        lemma_cur_find_push_take(s0, i as int, u);
                    }
                }
            }
            i = i + 1;
        }
        proof {
            assert(s0.take(s0.len() as int) =~= s0);
        }
        self.cur = kept;
        proof {
            assert(self.cur_map() =~~= crate::store::spec_purge(old(self).cur_map()));
            assert(self.boxes_map() =~~= old(self).boxes_map());
            assert(self.st().cur == crate::store::spec_purge(old(self).st().cur));
            assert(self.st().boxes == old(self).st().boxes);
        }
        Ok(())
    }

    fn list_msgs(&mut self, page_size: usize, page: usize) -> (r: Result<Vec<MsgSummary>, Error>) {
        proof {
            self.reqs@ = self.reqs@.push(StoreRequest::List { size: page_size, page: page });
        }
        let mut out: Vec<MsgSummary> = Vec::new();
        let start = page.checked_mul(page_size).unwrap_or(usize::MAX);
        let mut i: usize = 0;
        let mut taken: usize = 0;
        while i < self.cur.len()
            invariant
                i <= self.cur@.len(),
                self.cur@ == old(self).cur@,
                self.boxes@ == old(self).boxes@,
                self.gone == old(self).gone,
                self.reqs@ == old(self).reqs@.push(
                    StoreRequest::List { size: page_size, page: page },
                ),
                spec_summaries_of(out.deep_view(), self.cur_map()),
            decreases self.cur@.len() - i,
        {
            let first = !key_seen_before(&self.cur, i);
            if first && i >= start && taken < page_size {
                let entry = &self.cur[i];
                let summary = MsgSummary {
                    uid: entry.0.clone(),
                    subject: match &entry.1.headers.subject {
                        Some(s) => Some(s.clone()),
                        None => None,
                    },
                };
                proof {
                    let u = self.cur@[i as int].0@;
                    assert forall|j: int| 0 <= j < i implies (#[trigger] self.cur@[j]).0@ != u by {
                        if self.cur@[j].0@ == u {
                            assert(exists|k: int|
                                0 <= k < i && (#[trigger] self.cur@[k]).0@
                                    == self.cur@[i as int].0@);
                        }
                    }
                    lemma_cur_find_first_occurrence(self.cur@, i as int);
                    assert(self.cur_map().dom().contains(u));
                    assert(summary@ =~= spec_summary_of(u, self.cur_map()[u]));
                    let ghost odv = out.deep_view();
                    assert(spec_summaries_of(odv.push(summary@), self.cur_map()));
                }
                let ghost odv = out.deep_view();
                out.push(summary);
                taken = taken + 1;
                proof {
                    assert(out.deep_view() =~= odv.push(out@.last()@));
                }
            }
            i = i + 1;
        }
        Ok(out)
    }

    fn search_msgs(&mut self, query: &str, page_size: usize, page: usize) -> (r: Result<
        Vec<MsgSummary>,
        Error,
    >) {
        proof {
            self.reqs@ = self.reqs@.push(
                StoreRequest::Search { query: query@, size: page_size, page: page },
            );
        }
        let mut out: Vec<MsgSummary> = Vec::new();
        let mut i: usize = 0;
        let mut taken: usize = 0;
        while i < self.cur.len()
            invariant
                i <= self.cur@.len(),
                self.cur@ == old(self).cur@,
                self.boxes@ == old(self).boxes@,
                self.gone == old(self).gone,
                self.reqs@ == old(self).reqs@.push(
                    StoreRequest::Search { query: query@, size: page_size, page: page },
                ),
                spec_summaries_of(out.deep_view(), self.cur_map()),
            decreases self.cur@.len() - i,
        {
            let first = !key_seen_before(&self.cur, i);
            let hit = match &self.cur[i].1.headers.subject {
                Some(s) => contains_sub(s.as_str(), query),
                None => false,
            };
            if first && hit && taken < page_size && page == 0 {
                let entry = &self.cur[i];
                let summary = MsgSummary {
                    uid: entry.0.clone(),
                    subject: match &entry.1.headers.subject {
                        Some(s) => Some(s.clone()),
                        None => None,
                    },
                };
                proof {
                    let u = self.cur@[i as int].0@;
                    assert forall|j: int| 0 <= j < i implies (#[trigger] self.cur@[j]).0@ != u by {
                        if self.cur@[j].0@ == u {
                            assert(exists|k: int|
                                0 <= k < i && (#[trigger] self.cur@[k]).0@
                                    == self.cur@[i as int].0@);
                        }
                    }
                    lemma_cur_find_first_occurrence(self.cur@, i as int);
                    assert(self.cur_map().dom().contains(u));
                    assert(summary@ =~= spec_summary_of(u, self.cur_map()[u]));
                    let ghost odv = out.deep_view();
                    assert(spec_summaries_of(odv.push(summary@), self.cur_map()));
                }
                let ghost odv = out.deep_view();
                out.push(summary);
                taken = taken + 1;
                proof {
                    assert(out.deep_view() =~= odv.push(out@.last()@));
                }
            }
            i = i + 1;
        }
        Ok(out)
    }

    fn logout(&mut self) -> (r: Result<(), Error>) {
        self.gone = true;
        Ok(())
    }
}

proof fn lemma_cur_find_push_take(s: Seq<(String, Msg)>, i: int, u: Seq<char>)
    requires
        0 <= i < s.len(),
    ensures
        spec_cur_find(s.take(i + 1), u) == (if spec_cur_find(s.take(i), u) is Some {
            spec_cur_find(s.take(i), u)
        } else if s[i].0@ == u {
            Some(s[i].1@)
        } else {
            None::<MsgModel>
        }),
{
    assert(s.take(i + 1) =~= s.take(i).push(s[i]));
    lemma_cur_find_push(s.take(i), s[i], u);
}

proof fn lemma_cur_find_first_occurrence(s: Seq<(String, Msg)>, i: int)
    requires
        0 <= i < s.len(),
        forall|j: int| 0 <= j < i ==> (#[trigger] s[j]).0@ != s[i].0@,
    ensures
        spec_cur_find(s, s[i].0@) == Some(s[i].1@),
    decreases i,
{
    if i == 0 {
    } else {
        assert(s[0].0@ != s[i].0@);
        assert(s.drop_first()[i - 1] == s[i]);
        assert(forall|j: int|
            0 <= j < i - 1 ==> (#[trigger] s.drop_first()[j]) == s[j + 1]);
        lemma_cur_find_first_occurrence(s.drop_first(), i - 1);
    }
}

/// An in-memory mail transport: it records each accepted sendable form, in
/// order, and can be configured to refuse deliveries.
pub struct MemTransport {
    log: Vec<crate::msg::SendableMsg>,
    fail: bool,
}

impl MemTransport {
    /// A transport accepting everything.
    pub fn new() -> (r: MemTransport)
        ensures
            r.delivered() == Seq::<Seq<char>>::empty(),
    {
        let r = MemTransport { log: Vec::new(), fail: false };
        proof {
            assert(r.delivered() =~= Seq::<Seq<char>>::empty());
        }
        r
    }

    /// Configure whether deliveries fail.
    pub fn set_fail(&mut self, b: bool)
        ensures
            final(self).delivered() == old(self).delivered(),
    {
        self.fail = b;
    }
}

impl MailTransport for MemTransport {
    closed spec fn delivered(&self) -> Seq<Seq<char>> {
        self.log@.map_values(|s: crate::msg::SendableMsg| s@)
    }

    fn send(&mut self, msg: &crate::msg::SendableMsg) -> (r: Result<(), Error>) {
        if self.fail {
            return Err(Error::TransportFailure);
        }
        self.log.push(crate::msg::SendableMsg { raw: msg.raw.clone() });
        proof {
            assert(self.delivered() =~= old(self).delivered().push(msg@));
        }
        Ok(())
    }
}

/// An in-memory output sink: it records each presented line, in order, and
/// can be configured to fail and to report machine mode.
pub struct MemOutput {
    out: Vec<String>,
    json: bool,
    fail: bool,
}

impl MemOutput {
    /// A sink in human mode, accepting everything.
    pub fn new() -> (r: MemOutput)
        ensures
            r.lines() == Seq::<Seq<char>>::empty(),
            !r.json_mode(),
    {
        let r = MemOutput { out: Vec::new(), json: false, fail: false };
        proof {
            assert(r.lines() =~= Seq::<Seq<char>>::empty());
        }
        r
    }

    /// Configure whether presenting fails.
    pub fn set_fail(&mut self, b: bool)
        ensures
            final(self).lines() == old(self).lines(),
            final(self).json_mode() == old(self).json_mode(),
    {
        self.fail = b;
    }

    /// Configure machine mode.
    pub fn set_json(&mut self, b: bool)
        ensures
            final(self).lines() == old(self).lines(),
            final(self).json_mode() == b,
    {
        self.json = b;
    }

    /// The lines presented so far.
    pub fn take_lines(&self) -> (r: Vec<String>)
        ensures
            r.deep_view() == self.lines(),
    {
        let r = clone_strings(&self.out);
        proof {
            assert(r.deep_view() =~= self.lines());
        }
        r
    }
}

impl Output for MemOutput {
    closed spec fn lines(&self) -> Seq<Seq<char>> {
        self.out.deep_view()
    }

    closed spec fn json_mode(&self) -> bool {
        self.json
    }

    fn is_json(&self) -> (r: bool) {
        self.json
    }

    fn print(&mut self, s: &str) -> (r: Result<(), Error>) {
        if self.fail {
            return Err(Error::OutputFailure);
        }
        self.out.push(s.to_owned());
        proof {
            assert(self.lines() =~= old(self).lines().push(s@));
        }
        Ok(())
    }
}

} // verus!
