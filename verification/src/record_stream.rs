//! Cutting the streamed output of `git log` into records, chunk by chunk, and
//! turning complete records into commits as they arrive.

use vstd::prelude::*;
use crate::commit_list::{self, Commit, parse_single_commit};
use crate::text::{self, chars_of};
use crate::unicode::utf8_text;

verus! {

/// The record separator.
pub open spec fn separator() -> u8 {
    0x1e
}

/// `bytes` split at every record separator; never empty, the last piece is
/// what follows the last separator.
pub open spec fn split_records(bytes: Seq<u8>) -> Seq<Seq<u8>>
    decreases bytes.len(),
{
    if bytes.len() == 0 {
        seq![Seq::<u8>::empty()]
    } else {
        step(split_records(bytes.drop_last()), bytes.last())
    }
}

/// One more byte read: a separator closes the record being read.
pub open spec fn step(pieces: Seq<Seq<u8>>, b: u8) -> Seq<Seq<u8>> {
    if b == separator() {
        pieces.push(Seq::<u8>::empty())
    } else {
        pieces.update(pieces.len() - 1, pieces.last().push(b))
    }
}

/// The records that a separator has closed.
pub open spec fn complete_records(bytes: Seq<u8>) -> Seq<Seq<u8>> {
    split_records(bytes).drop_last()
}

/// What follows the last separator.
pub open spec fn pending_bytes(bytes: Seq<u8>) -> Seq<u8> {
    split_records(bytes).last()
}

pub proof fn lemma_split_records_nonempty(bytes: Seq<u8>)
    ensures
        split_records(bytes).len() >= 1,
    decreases bytes.len(),
{
    if bytes.len() > 0 {
        lemma_split_records_nonempty(bytes.drop_last());
    }
}

pub proof fn lemma_pending_has_no_separator(bytes: Seq<u8>)
    ensures
        !pending_bytes(bytes).contains(separator()),
    decreases bytes.len(),
{
    lemma_split_records_nonempty(bytes);
    if bytes.len() > 0 {
        lemma_pending_has_no_separator(bytes.drop_last());
        lemma_split_records_nonempty(bytes.drop_last());
        let prev = pending_bytes(bytes.drop_last());
        if bytes.last() != separator() {
            assert forall|i: int| 0 <= i < prev.push(bytes.last()).len() implies prev.push(
                bytes.last(),
            )[i] != separator() by {
                if i < prev.len() {
                    assert(prev.push(bytes.last())[i] == prev[i]);
                }
            }
        }
    }
}

proof fn lemma_step_append(a: Seq<Seq<u8>>, b: Seq<Seq<u8>>, x: u8)
    requires
        b.len() >= 1,
    ensures
        step(a + b, x) == a + step(b, x),
{
    if x == separator() {
        assert((a + b).push(Seq::<u8>::empty()) =~= a + b.push(Seq::<u8>::empty()));
    } else {
        assert((a + b).last() == b.last());
        assert((a + b).update((a + b).len() - 1, b.last().push(x)) =~= a + b.update(
            b.len() - 1,
            b.last().push(x),
        ));
    }
}

/// Reading `x` and then `y` closes the records of `x`, then those of what
/// `x` left pending followed by `y`: cutting a stream chunk by chunk gives
/// the records of the whole stream.
pub proof fn lemma_split_records_concat(x: Seq<u8>, y: Seq<u8>)
    ensures
        split_records(x + y) == complete_records(x) + split_records(pending_bytes(x) + y),
    decreases y.len(),
{
    lemma_split_records_nonempty(x);
    if y.len() == 0 {
        assert(x + y =~= x);
        assert(pending_bytes(x) + y =~= pending_bytes(x));
        assert(split_records(pending_bytes(x)) == seq![pending_bytes(x)]) by {
            lemma_split_of_pending(x);
        }
        assert(complete_records(x) + seq![pending_bytes(x)] =~= split_records(x));
    } else {
        let y0 = y.drop_last();
        lemma_split_records_concat(x, y0);
        assert((x + y).drop_last() =~= x + y0);
        assert((x + y).last() == y.last());
        assert((pending_bytes(x) + y).drop_last() =~= pending_bytes(x) + y0);
        assert((pending_bytes(x) + y).last() == y.last());
        lemma_split_records_nonempty(pending_bytes(x) + y0);
        lemma_step_append(complete_records(x), split_records(pending_bytes(x) + y0), y.last());
    }
}

/// Bytes without a separator are a single pending piece.
proof fn lemma_split_without_separator(s: Seq<u8>)
    requires
        !s.contains(separator()),
    ensures
        split_records(s) == seq![s],
    decreases s.len(),
{
    if s.len() == 0 {
        assert(s =~= Seq::<u8>::empty());
        assert(split_records(s) =~= seq![s]);
    } else {
        let t = s.drop_last();
        assert(!t.contains(separator())) by {
            if t.contains(separator()) {
                let i = choose|i: int| 0 <= i < t.len() && t[i] == separator();
                assert(s[i] == separator());
            }
        }
        lemma_split_without_separator(t);
        assert(s.last() != separator()) by {
            assert(s[s.len() - 1] == s.last());
        }
        assert(t.push(s.last()) =~= s);
    }
}

proof fn lemma_split_of_pending(x: Seq<u8>)
    ensures
        split_records(pending_bytes(x)) == seq![pending_bytes(x)],
{
    lemma_pending_has_no_separator(x);
    lemma_split_without_separator(pending_bytes(x));
}

/// The records of a `git log` stream that have been closed so far, and the
/// bytes after the last separator.
pub struct RecordStream {
    buffer: Vec<u8>,
}

impl RecordStream {
    /// The bytes read since the last separator.
    pub closed spec fn pending(&self) -> Seq<u8> {
        self.buffer@
    }

    pub closed spec fn well_formed(&self) -> bool {
        !self.buffer@.contains(separator())
    }

    pub fn new() -> (s: Self)
        ensures
            s.well_formed(),
            s.pending() == Seq::<u8>::empty(),
    {
        RecordStream { buffer: Vec::new() }
    }

    /// Appends a chunk and hands out the records it closes, without their
    /// separators.
    pub fn feed(&mut self, chunk: &[u8]) -> (records: Vec<Vec<u8>>)
        requires
            old(self).well_formed(),
        ensures
            final(self).well_formed(),
            byte_views(records@) == complete_records(old(self).pending() + chunk@),
            final(self).pending() == pending_bytes(old(self).pending() + chunk@),
    {
        let ghost start = self.buffer@;
        proof {
            lemma_split_without_separator(start);
            assert(start + chunk@.take(0) =~= start);
        }
        let mut out: Vec<Vec<u8>> = Vec::new();
        let mut i: usize = 0;
        while i < chunk.len()
            invariant
                i <= chunk@.len(),
                split_records(start + chunk@.take(i as int)) == byte_views(out@).push(self.buffer@),
                !self.buffer@.contains(separator()),
            decreases chunk.len() - i,
        {
            let b = chunk[i];
            let ghost before = start + chunk@.take(i as int);
            assert((start + chunk@.take(i + 1)).drop_last() =~= before);
            assert((start + chunk@.take(i + 1)).last() == b);
            let ghost prev_out = byte_views(out@);
            let ghost prev_buf = self.buffer@;
            if b == 0x1e {
                let mut done: Vec<u8> = Vec::new();
                std::mem::swap(&mut done, &mut self.buffer);
                out.push(done);
                assert(byte_views(out@) =~= prev_out.push(prev_buf));
                assert(prev_out.push(prev_buf).push(Seq::<u8>::empty()) =~= byte_views(out@).push(
                    self.buffer@,
                ));
            } else {
                self.buffer.push(b);
                assert(prev_out.push(prev_buf).update(prev_out.len() as int, prev_buf.push(b))
                    =~= prev_out.push(prev_buf.push(b)));
                assert(!self.buffer@.contains(separator())) by {
                    if self.buffer@.contains(separator()) {
                        let k = choose|k: int| 0 <= k < self.buffer@.len() && self.buffer@[k] == separator();
                        if k < prev_buf.len() {
                            assert(prev_buf[k] == separator());
                        }
                    }
                }
            }
            i = i + 1;
        }
        assert(chunk@.take(chunk@.len() as int) =~= chunk@);
        assert(byte_views(out@).push(self.buffer@).drop_last() =~= byte_views(out@));
        out
    }

    /// The bytes after the last separator, when the stream has ended.
    pub fn remainder(self) -> (rest: Vec<u8>)
        ensures
            rest@ == self.pending(),
    {
        self.buffer
    }
}

pub open spec fn byte_views(v: Seq<Vec<u8>>) -> Seq<Seq<u8>> {
    v.map_values(|x: Vec<u8>| x@)
}

/// A closed record is a commit when it is valid UTF-8, not empty, and parses.
pub open spec fn record_is_commit(record: Seq<u8>) -> bool {
    &&& vstd::utf8::valid_utf8(record)
    &&& vstd::utf8::decode_utf8(record).len() > 0
    &&& commit_list::record_failure(vstd::utf8::decode_utf8(record)) is None
}

/// The trailing bytes are a commit when they are valid UTF-8, not blank, and
/// parse.
pub open spec fn tail_is_commit(rest: Seq<u8>) -> bool {
    &&& record_is_commit(rest)
    &&& text::trim(vstd::utf8::decode_utf8(rest)).len() > 0
}

/// The commit a closed record holds; records that are not valid UTF-8, are
/// empty, or do not parse are passed over.
pub fn record_commit(record: &[u8]) -> (r: Option<Commit>)
    ensures
        r is Some <==> record_is_commit(record@),
        r matches Some(c) ==> commit_list::is_record_commit(c, vstd::utf8::decode_utf8(record@)),
{
    match utf8_text(record) {
        Some(s) => {
            if s.as_str().is_empty() {
                return None;
            }
            match parse_single_commit(s.as_str()) {
                Ok(c) => Some(c),
                Err(_) => None,
            }
        },
        None => None,
    }
}

/// The commit held by the bytes left when the stream ends, unless they are
/// blank.
pub fn tail_commit(rest: &[u8]) -> (r: Option<Commit>)
    ensures
        r is Some <==> tail_is_commit(rest@),
        r matches Some(c) ==> commit_list::is_record_commit(c, vstd::utf8::decode_utf8(rest@)),
{
    match utf8_text(rest) {
        Some(s) => {
            let chars = chars_of(s.as_str());
            let t = text::trim_chars(&chars);
            if t.len() == 0 {
                return None;
            }
            match parse_single_commit(s.as_str()) {
                Ok(c) => Some(c),
                Err(_) => None,
            }
        },
        None => None,
    }
}

/// The commits of the records, in order, passing over those that are not
/// commits.
pub open spec fn commit_records(records: Seq<Seq<u8>>) -> Seq<Seq<u8>> {
    records.filter(|r: Seq<u8>| record_is_commit(r))
}

/// Turns closed records into commits, in order.
pub fn commits_of_records(records: &Vec<Vec<u8>>) -> (r: Vec<Commit>)
    ensures
        r@.len() == commit_records(byte_views(records@)).len(),
        forall|k: int| 0 <= k < r@.len() ==> commit_list::is_record_commit(
            #[trigger] r@[k],
            vstd::utf8::decode_utf8(commit_records(byte_views(records@))[k]),
        ),
{
    let ghost all = byte_views(records@);
    let mut out: Vec<Commit> = Vec::new();
    let mut i: usize = 0;
    while i < records.len()
        invariant
            i <= records@.len(),
            all == byte_views(records@),
            out@.len() == commit_records(all.take(i as int)).len(),
            forall|k: int| 0 <= k < out@.len() ==> commit_list::is_record_commit(
                #[trigger] out@[k],
                vstd::utf8::decode_utf8(commit_records(all.take(i as int))[k]),
            ),
        decreases records.len() - i,
    {
        proof {
            assert(all.take(i + 1).drop_last() =~= all.take(i as int));
            assert(all.take(i + 1).last() == records@[i as int]@);
            reveal_with_fuel(Seq::filter, 1);
        }
        let ghost before = commit_records(all.take(i as int));
        match record_commit(&records[i]) {
            Some(c) => {
                out.push(c);
                assert(commit_records(all.take(i + 1)) == before.push(records@[i as int]@));
            },
            None => {
                assert(commit_records(all.take(i + 1)) == before);
            },
        }
        i = i + 1;
    }
    assert(all.take(records@.len() as int) =~= all);
    out
}

/// All the bytes of a streamed output, chunk after chunk.
pub open spec fn all_bytes(chunks: Seq<Vec<u8>>) -> Seq<u8> {
    byte_views(chunks).flatten()
}

/// The closed records of a stream that hold commits.
pub open spec fn listed_records(bytes: Seq<u8>) -> Seq<Seq<u8>> {
    commit_records(complete_records(bytes))
}

proof fn lemma_listed_concat(x: Seq<u8>, y: Seq<u8>)
    ensures
        listed_records(x + y) == listed_records(x) + listed_records(pending_bytes(x) + y),
        pending_bytes(x + y) == pending_bytes(pending_bytes(x) + y),
{
    lemma_split_records_concat(x, y);
    lemma_split_records_nonempty(pending_bytes(x) + y);
    let a = complete_records(x);
    let b = split_records(pending_bytes(x) + y);
    assert((a + b).drop_last() =~= a + b.drop_last());
    assert((a + b).last() == b.last());
    Seq::filter_distributes_over_add(a, b.drop_last(), |r: Seq<u8>| record_is_commit(r));
}

/// The commits of a `git log` stream given chunk by chunk: the closed records
/// that hold commits, in order, then the trailing bytes when they hold one.
pub fn get_commit_list(chunks: &Vec<Vec<u8>>) -> (r: Vec<Commit>)
    ensures
        ({
            let all = all_bytes(chunks@);
            let listed = listed_records(all);
            &&& r@.len() == listed.len() + (if tail_is_commit(pending_bytes(all)) { 1int } else { 0int })
            &&& forall|k: int| 0 <= k < listed.len() ==> commit_list::is_record_commit(
                #[trigger] r@[k],
                vstd::utf8::decode_utf8(listed[k]),
            )
            &&& tail_is_commit(pending_bytes(all)) ==> commit_list::is_record_commit(
                r@[listed.len() as int],
                vstd::utf8::decode_utf8(pending_bytes(all)),
            )
        }),
{
    let ghost views = byte_views(chunks@);
    let mut stream = RecordStream::new();
    let mut out: Vec<Commit> = Vec::new();
    let mut i: usize = 0;
    proof {
        assert(views.take(0).flatten() =~= Seq::<u8>::empty()) by {
            assert(views.take(0) =~= Seq::<Seq<u8>>::empty());
        }
        assert(split_records(Seq::<u8>::empty()) == seq![Seq::<u8>::empty()]);
        assert(complete_records(Seq::<u8>::empty()) =~= Seq::<Seq<u8>>::empty());
        assert(listed_records(Seq::<u8>::empty()) =~= Seq::<Seq<u8>>::empty());
    }
    while i < chunks.len()
        invariant
            i <= chunks@.len(),
            views == byte_views(chunks@),
            stream.well_formed(),
            stream.pending() == pending_bytes(views.take(i as int).flatten()),
            out@.len() == listed_records(views.take(i as int).flatten()).len(),
            forall|k: int| 0 <= k < out@.len() ==> commit_list::is_record_commit(
                #[trigger] out@[k],
                vstd::utf8::decode_utf8(listed_records(views.take(i as int).flatten())[k]),
            ),
        decreases chunks.len() - i,
    {
        let ghost x = views.take(i as int).flatten();
        let ghost y = chunks@[i as int]@;
        proof {
            assert(views.take(i + 1) =~= views.take(i as int).push(y));
            views.take(i as int).lemma_flatten_push(y);
            lemma_listed_concat(x, y);
        }
        let records = stream.feed(chunks[i].as_slice());
        let mut found = commits_of_records(&records);
        let ghost before = out@;
        let ghost added = found@;
        out.append(&mut found);
        proof {
            let lx = listed_records(x);
            let ly = listed_records(pending_bytes(x) + y);
            assert(listed_records(views.take(i + 1).flatten()) == lx + ly);
            assert forall|k: int| 0 <= k < out@.len() implies commit_list::is_record_commit(
                #[trigger] out@[k],
                vstd::utf8::decode_utf8((lx + ly)[k]),
            ) by {
                if k < before.len() {
                    assert(out@[k] == before[k]);
                } else {
                    assert(out@[k] == added[k - before.len()]);
                    assert((lx + ly)[k] == ly[k - before.len()]);
                }
            }
        }
        i = i + 1;
    }
    assert(views.take(chunks@.len() as int) =~= views);
    let rest = stream.remainder();
    match tail_commit(rest.as_slice()) {
        Some(c) => {
            out.push(c);
        },
        None => {},
    }
    out
}

/// One chunk of the streamed `git log` output: the commits of the records it
/// closes, in order, for the caller to hand to its handler one by one.
pub fn get_commit_list_with_handler(stream: &mut RecordStream, chunk: &[u8]) -> (r: Vec<Commit>)
    requires
        old(stream).well_formed(),
    ensures
        final(stream).well_formed(),
        final(stream).pending() == pending_bytes(old(stream).pending() + chunk@),
        r@.len() == listed_records(old(stream).pending() + chunk@).len(),
        forall|k: int| 0 <= k < r@.len() ==> commit_list::is_record_commit(
            #[trigger] r@[k],
            vstd::utf8::decode_utf8(listed_records(old(stream).pending() + chunk@)[k]),
        ),
{
    let records = stream.feed(chunk);
    commits_of_records(&records)
}

} // verus!

verus! {

/// Handing the commits of a listing to a handler one by one
/// (`get_commit_list_with_handler`): in order, each once, and none after the
/// handler's first failure.
pub struct Handout {
    pending: Vec<Commit>,
    stopped: bool,
    listed: Ghost<Seq<Commit>>,
    handed: Ghost<Seq<Commit>>,
}

impl Handout {
    /// Every commit given to the handout so far, in order.
    pub closed spec fn listed(&self) -> Seq<Commit> {
        self.listed@
    }

    /// The commits handed out so far, in order.
    pub closed spec fn handed(&self) -> Seq<Commit> {
        self.handed@
    }

    /// Whether the handler failed (nothing more is handed out then).
    pub closed spec fn stopped(&self) -> bool {
        self.stopped
    }

    pub closed spec fn well_formed(&self) -> bool {
        self.handed@ + self.pending@ == self.listed@
    }

    pub fn new() -> (h: Self)
        ensures
            h.well_formed(),
            h.listed() == Seq::<Commit>::empty(),
            h.handed() == Seq::<Commit>::empty(),
            !h.stopped(),
    {
        let h = Handout { pending: Vec::new(), stopped: false, listed: Ghost(Seq::empty()), handed: Ghost(Seq::empty()) };
        assert(h.handed@ + h.pending@ =~= h.listed@);
        h
    }

    /// More commits, after those already given.
    pub fn add(&mut self, commits: Vec<Commit>)
        requires
            old(self).well_formed(),
        ensures
            final(self).well_formed(),
            final(self).listed() == old(self).listed() + commits@,
            final(self).handed() == old(self).handed(),
            final(self).stopped() == old(self).stopped(),
    {
        let mut commits = commits;
        let ghost before = self.pending@;
        let ghost added = commits@;
        self.pending.append(&mut commits);
        self.listed = Ghost(self.listed@ + added);
        assert(self.handed@ + self.pending@ =~= self.listed@) by {
            assert(self.pending@ =~= before + added);
        }
    }

    /// The next commit to hand to the handler: the first not handed out, as
    /// long as the handler has not failed.
    pub fn next_commit(&mut self) -> (c: Option<Commit>)
        requires
            old(self).well_formed(),
        ensures
            final(self).well_formed(),
            final(self).listed() == old(self).listed(),
            final(self).stopped() == old(self).stopped(),
            old(self).stopped() || old(self).handed().len() == old(self).listed().len() ==> c is None
                && final(self).handed() == old(self).handed(),
            !old(self).stopped() && old(self).handed().len() < old(self).listed().len() ==> (c matches Some(k) && k
                == old(self).listed()[old(self).handed().len() as int] && final(self).handed() == old(self).handed().push(k)),
    {
        if self.stopped || self.pending.len() == 0 {
            return None;
        }
        let c = self.pending.remove(0);
        let ghost h = self.handed@;
        self.handed = Ghost(h.push(c));
        assert(self.handed@ + self.pending@ =~= self.listed@);
        assert(self.listed@[h.len() as int] == c);
        Some(c)
    }

    /// What the handler answered for the last commit: after a failure
    /// nothing more is handed out.
    pub fn handled(&mut self, ok: bool)
        requires
            old(self).well_formed(),
        ensures
            final(self).well_formed(),
            final(self).listed() == old(self).listed(),
            final(self).handed() == old(self).handed(),
            final(self).stopped() == (old(self).stopped() || !ok),
    {
        if !ok {
            self.stopped = true;
        }
    }

    /// The commits handed out are the first ones listed, in order.
    pub proof fn lemma_handed_prefix(&self)
        requires
            self.well_formed(),
        ensures
            self.handed().len() <= self.listed().len(),
            self.handed() == self.listed().take(self.handed().len() as int),
    {
        assert(self.handed() =~= self.listed().take(self.handed().len() as int));
    }
}

} // verus!
