//! A cursor over the matches of a pattern in one subject.
//!
//! The cursor is a state machine. While it scans it knows the offset at which
//! the next match attempt starts; `next_call` gives the call for that attempt
//! and `next` takes the engine's reply. A reply without a match exhausts the
//! cursor, and an exhausted cursor stays exhausted.
//!
//! A match moves the offset to its end. After an empty match the next attempt
//! starts one character further on, so that the same empty match is not found
//! again; an empty match at the end of the subject exhausts the cursor.

use crate::detail::exec_bits;
use crate::detail::exec_call_for;
use crate::detail::exec_options;
use crate::detail::exec_outcome;
use crate::detail::pcre;
use crate::detail::pcre_exec;
use crate::detail::pcre_refcount;
use crate::detail::pcre_release;
use crate::detail::released;
use crate::detail::ExecCall;
use crate::detail::ExecReply;
use crate::detail::Fault;
use crate::detail::Release;
use crate::detail::CAPTURE_COUNT_MAX;
use crate::detail::REFCOUNT_MAX;
use crate::matched::match_data_ok;
use crate::matched::Match;
use crate::option_set::OptionSet;
use crate::options::ExecOption;
use vstd::prelude::*;
use vstd::string::StringSliceAdditionalSpecFns;
use vstd::utf8::is_char_boundary;

verus! {

/// The first place at or after `from` that lies between two characters of
/// `bytes`, or at their end.
pub open spec fn next_boundary(bytes: Seq<u8>, from: int) -> int
    decreases bytes.len() - from,
{
    if from >= bytes.len() || is_char_boundary(bytes, from) {
        from
    } else {
        next_boundary(bytes, from + 1)
    }
}

/// `next_boundary` stays between its start and the end of the bytes.
pub proof fn lemma_next_boundary_bounds(bytes: Seq<u8>, from: int)
    requires
        from <= bytes.len(),
    ensures
        from <= next_boundary(bytes, from) <= bytes.len(),
    decreases bytes.len() - from,
{
    if from < bytes.len() && !is_char_boundary(bytes, from) {
        lemma_next_boundary_bounds(bytes, from + 1);
    }
}

/// The first place at or after `from` that lies between two characters of
/// `subject`.
pub fn boundary_from(subject: &str, from: usize) -> (at: usize)
    requires
        from <= subject.spec_bytes().len(),
    ensures
        at == next_boundary(subject.spec_bytes(), from as int),
        from <= at <= subject.spec_bytes().len(),
{
    let len: usize = subject.as_bytes().len();
    let mut at: usize = from;
    proof {
        lemma_next_boundary_bounds(subject.spec_bytes(), from as int);
    }
    while at < len && !subject.is_char_boundary(at)
        invariant
            from <= at <= len,
            len == subject.spec_bytes().len(),
            next_boundary(subject.spec_bytes(), from as int) == next_boundary(
                subject.spec_bytes(),
                at as int,
            ),
        decreases len - at,
    {
        at = at + 1;
    }
    at
}

/// Where a cursor stands: at an offset of the subject, or exhausted.
pub struct Scan {
    /// The offset at which the next match attempt starts.
    pub offset: int,
    /// Whether the cursor has come to its end.
    pub exhausted: bool,
}

/// What one step of a cursor gives: the span of the whole match, nothing, or a
/// fault.
pub enum Step {
    /// A match from `start` to `end`.
    Found { start: int, end: int },
    /// No match: the cursor is exhausted.
    Done,
    /// The reply was a fault.
    Failed(Fault),
}

/// What the cursor of a pattern with `capture_count` groups over a subject with
/// the bytes `bytes` makes of `reply`, when it stands at `at` and hands
/// `options` to the engine.
pub open spec fn scan_step(
    bytes: Seq<u8>,
    capture_count: int,
    options: u32,
    at: Scan,
    reply: ExecReply,
) -> (Scan, Step) {
    let call = exec_call_for(capture_count, None, bytes.len() as int, at.offset, options);
    let ended = Scan { offset: at.offset, exhausted: true };
    if at.exhausted {
        (at, Step::Done)
    } else {
        match exec_outcome(call, reply) {
            Err(fault) => (ended, Step::Failed(fault)),
            Ok(rc) => if rc < 0 {
                (ended, Step::Done)
            } else if !match_data_ok(bytes, reply.ovector@, capture_count + 1, rc as int)
                || reply.ovector@[0] < at.offset {
                (ended, Step::Failed(Fault::MalformedReply))
            } else {
                let start = reply.ovector@[0] as int;
                let end = reply.ovector@[1] as int;
                let found = Step::Found { start, end };
                if start < end {
                    (Scan { offset: end, exhausted: false }, found)
                } else if end < bytes.len() {
                    (Scan { offset: next_boundary(bytes, end + 1), exhausted: false }, found)
                } else {
                    (Scan { offset: end, exhausted: true }, found)
                }
            },
        }
    }
}

/// The steps that a cursor makes on a run of replies, one step for each reply.
pub open spec fn scan_run(
    bytes: Seq<u8>,
    capture_count: int,
    options: u32,
    at: Scan,
    replies: Seq<ExecReply>,
) -> Seq<Step>
    decreases replies.len(),
{
    if replies.len() == 0 {
        Seq::empty()
    } else {
        let (next, step) = scan_step(bytes, capture_count, options, at, replies[0]);
        seq![step] + scan_run(bytes, capture_count, options, next, replies.drop_first())
    }
}

/// Exhaustion is final: an exhausted cursor stays as it is and gives no match,
/// whatever the reply.
pub proof fn lemma_exhausted_stays(
    bytes: Seq<u8>,
    capture_count: int,
    options: u32,
    at: Scan,
    reply: ExecReply,
)
    requires
        at.exhausted,
    ensures
        scan_step(bytes, capture_count, options, at, reply) == (at, Step::Done),
{
}

/// A step without a match exhausts the cursor.
pub proof fn lemma_no_match_exhausts(
    bytes: Seq<u8>,
    capture_count: int,
    options: u32,
    at: Scan,
    reply: ExecReply,
)
    ensures
        !(scan_step(bytes, capture_count, options, at, reply).1 is Found) ==> scan_step(
            bytes,
            capture_count,
            options,
            at,
            reply,
        ).0.exhausted,
{
}

/// The offset of a cursor never moves back. A match lies at or after the
/// offset at which the cursor stood, and the cursor goes on from the end of
/// the match or beyond it: beyond the start of the match, unless the cursor
/// is exhausted.
pub proof fn lemma_step_moves_on(
    bytes: Seq<u8>,
    capture_count: int,
    options: u32,
    at: Scan,
    reply: ExecReply,
)
    requires
        0 <= at.offset <= bytes.len(),
    ensures
        ({
            let (next, step) = scan_step(bytes, capture_count, options, at, reply);
            &&& at.offset <= next.offset <= bytes.len()
            &&& step matches Step::Found { start, end } ==> {
                &&& !at.exhausted
                &&& at.offset <= start <= end <= next.offset
                &&& next.exhausted || start < next.offset
            }
        }),
{
    let (next, step) = scan_step(bytes, capture_count, options, at, reply);
    if let Step::Found { start, end } = step {
        if start == end && end < bytes.len() {
            lemma_next_boundary_bounds(bytes, end + 1);
        }
    }
}

/// What holds of every step of a run: there are as many steps as replies; an
/// exhausted cursor gives no match; and a match does not start before the
/// offset at which the run began.
pub proof fn lemma_run_from(
    bytes: Seq<u8>,
    capture_count: int,
    options: u32,
    at: Scan,
    replies: Seq<ExecReply>,
    j: int,
)
    requires
        0 <= at.offset <= bytes.len(),
        0 <= j < replies.len(),
    ensures
        scan_run(bytes, capture_count, options, at, replies).len() == replies.len(),
        at.exhausted ==> scan_run(bytes, capture_count, options, at, replies)[j] == Step::Done,
        scan_run(bytes, capture_count, options, at, replies)[j] matches Step::Found {
            start,
            end,
        } ==> at.offset <= start,
    decreases replies.len(),
{
    let (next, step) = scan_step(bytes, capture_count, options, at, replies[0]);
    let rest = replies.drop_first();
    lemma_step_moves_on(bytes, capture_count, options, at, replies[0]);
    lemma_run_len(bytes, capture_count, options, next, rest);
    if j > 0 {
        lemma_run_from(bytes, capture_count, options, next, rest, j - 1);
    }
}

/// A run has one step for each reply.
pub proof fn lemma_run_len(
    bytes: Seq<u8>,
    capture_count: int,
    options: u32,
    at: Scan,
    replies: Seq<ExecReply>,
)
    ensures
        scan_run(bytes, capture_count, options, at, replies).len() == replies.len(),
    decreases replies.len(),
{
    if replies.len() > 0 {
        let (next, step) = scan_step(bytes, capture_count, options, at, replies[0]);
        lemma_run_len(bytes, capture_count, options, next, replies.drop_first());
    }
}

/// The matches of one cursor come from left to right: of two matches the later
/// one starts after the start of the earlier one, and not before its end. And
/// once a step has given no match, no later step gives one.
pub proof fn lemma_scan_order(
    bytes: Seq<u8>,
    capture_count: int,
    options: u32,
    at: Scan,
    replies: Seq<ExecReply>,
    i: int,
    j: int,
)
    requires
        0 <= at.offset <= bytes.len(),
        0 <= i < j < replies.len(),
    ensures
        ({
            let steps = scan_run(bytes, capture_count, options, at, replies);
            &&& steps.len() == replies.len()
            &&& !(steps[i] is Found) ==> !(steps[j] is Found)
            &&& steps[i] matches Step::Found { start: a, end: b } ==> (steps[j] matches Step::Found {
                start: c,
                end: d,
            } ==> a < c && b <= c)
        }),
    decreases replies.len(),
{
    let (next, step) = scan_step(bytes, capture_count, options, at, replies[0]);
    let rest = replies.drop_first();
    lemma_step_moves_on(bytes, capture_count, options, at, replies[0]);
    lemma_run_len(bytes, capture_count, options, next, rest);
    if i == 0 {
        lemma_run_from(bytes, capture_count, options, next, rest, j - 1);
    } else {
        lemma_scan_order(bytes, capture_count, options, next, rest, i - 1, j - 1);
    }
}

/// Goes through the matches of a pattern in a subject, from left to right.
///
/// A cursor is one owner of the pattern's handle, beside the `Pcre` that made
/// it and other cursors.
#[derive(Debug)]
pub struct MatchIterator<'a> {
    capture_count: i32,
    subject: &'a str,
    offset: usize,
    exhausted: bool,
    options: OptionSet<ExecOption>,
    ovector: Vec<i32>,
}

impl<'a> MatchIterator<'a> {
    /// The subject that is scanned.
    pub closed spec fn subject(&self) -> &'a str {
        self.subject
    }

    /// The number of capturing groups of the pattern.
    pub closed spec fn captures(&self) -> int {
        self.capture_count as int
    }

    /// Where the cursor stands.
    pub closed spec fn scan(&self) -> Scan {
        Scan { offset: self.offset as int, exhausted: self.exhausted }
    }

    /// The options of every match attempt.
    pub closed spec fn options(&self) -> Set<ExecOption> {
        self.options@
    }

    /// The offset vector as the latest reply left it.
    pub closed spec fn scratch(&self) -> Seq<i32> {
        self.ovector@
    }

    /// The offset lies in the subject, and subject and pattern are within the
    /// engine's limits.
    pub open spec fn wf(&self) -> bool {
        &&& 0 <= self.captures() <= CAPTURE_COUNT_MAX
        &&& 0 <= self.scan().offset <= self.subject().spec_bytes().len() <= i32::MAX
    }

    #[verifier::type_invariant]
    spec fn inv(&self) -> bool {
        self.wf()
    }

    /// Two cursors are the same but for the offset vector.
    pub open spec fn same_place(&self, other: &MatchIterator<'a>) -> bool {
        &&& self.subject() == other.subject()
        &&& self.captures() == other.captures()
        &&& self.scan() == other.scan()
        &&& self.options() == other.options()
    }

    /// A cursor at the start of `subject`, for a pattern with `capture_count`
    /// groups. Its offset vector holds zeros, three for each group, group 0
    /// counted.
    pub(crate) fn new(
        capture_count: i32,
        subject: &'a str,
        options: &OptionSet<ExecOption>,
    ) -> (made: MatchIterator<'a>)
        requires
            0 <= capture_count <= CAPTURE_COUNT_MAX,
            subject.spec_bytes().len() <= i32::MAX,
        ensures
            made.wf(),
            made.subject() == subject,
            made.captures() == capture_count,
            made.scan() == (Scan { offset: 0, exhausted: false }),
            made.options() == options@,
            made.scratch() == Seq::new(((capture_count + 1) * 3) as nat, |i: int| 0i32),
    {
        let size: usize = (capture_count as usize + 1) * 3;
        let mut ovector: Vec<i32> = Vec::new();
        let mut i: usize = 0;
        while i < size
            invariant
                0 <= i <= size,
                ovector@ == Seq::new(i as nat, |k: int| 0i32),
            decreases size - i,
        {
            ovector.push(0);
            i = i + 1;
            proof {
                assert(ovector@ =~= Seq::new(i as nat, |k: int| 0i32));
            }
        }
        MatchIterator {
            capture_count,
            subject,
            offset: 0,
            exhausted: false,
            options: options.clone(),
            ovector,
        }
    }

    /// Whether the cursor has come to its end.
    pub fn is_exhausted(&self) -> (ended: bool)
        ensures
            ended == self.scan().exhausted,
    {
        self.exhausted
    }

    /// The offset at which the next match attempt starts.
    pub fn offset(&self) -> (at: usize)
        ensures
            at == self.scan().offset,
    {
        self.offset
    }

    /// Hands out the offset vector, for the engine to fill. The cursor keeps
    /// an empty one until the next reply brings it back.
    pub fn take_scratch(&mut self) -> (buffer: Vec<i32>)
        ensures
            buffer@ == old(self).scratch(),
            final(self).scratch() == Seq::<i32>::empty(),
            final(self).same_place(old(self)),
    {
        proof {
            use_type_invariant(&*self);
        }
        let mut buffer: Vec<i32> = Vec::new();
        core::mem::swap(&mut self.ovector, &mut buffer);
        buffer
    }

    /// Takes the engine's reply to the call of `next_call` and gives the next
    /// match, or `None` where the subject holds no further match.
    ///
    /// A match moves the cursor to its end, or one character beyond where the
    /// match is empty. Anything else exhausts the cursor, and an exhausted
    /// cursor gives `None` whatever the reply. A match that starts before the
    /// offset of the cursor is a fault, as is every reply that is a fault for
    /// a single match attempt. The match that is returned has its own copy of
    /// the offsets.
    pub fn next(&mut self, reply: ExecReply) -> (r: Result<Option<Match<'a>>, Fault>)
        ensures
            final(self).subject() == old(self).subject(),
            final(self).captures() == old(self).captures(),
            final(self).options() == old(self).options(),
            ({
                let step = scan_step(
                    old(self).subject().spec_bytes(),
                    old(self).captures(),
                    exec_bits(old(self).options()),
                    old(self).scan(),
                    reply,
                );
                &&& final(self).scan() == step.0
                &&& match step.1 {
                    Step::Failed(fault) => r == Err::<Option<Match<'a>>, Fault>(fault),
                    Step::Done => r matches Ok(None),
                    Step::Found { start, end } => {
                        &&& r matches Ok(Some(m))
                        &&& m.wf()
                        &&& m.subject() == old(self).subject()
                        &&& m.offsets() == reply.ovector@.subrange(
                            0,
                            2 * (old(self).captures() + 1),
                        )
                        &&& m.count() == reply.rc
                        &&& m.spec_mark() is None
                    },
                }
                &&& final(self).scratch() == if step.1 is Found {
                    reply.ovector@
                } else {
                    old(self).scratch()
                }
            }),
    {
        proof {
            use_type_invariant(&*self);
        }
        if self.exhausted {
            return Ok(None);
        }
        let len: usize = self.subject.as_bytes().len();
        let call = ExecCall {
            startoffset: self.offset as i32,
            length: len as i32,
            options: exec_options(&self.options),
            ovecsize: (self.capture_count + 1) * 3,
            mark: false,
        };
        match pcre_exec(&call, &reply) {
            Err(fault) => {
                self.exhausted = true;
                Err(fault)
            },
            Ok(rc) => {
                if rc < 0 {
                    self.exhausted = true;
                    return Ok(None);
                }
                let groups: usize = (self.capture_count + 1) as usize;
                match Match::new(self.subject, groups, rc, &reply.ovector, None) {
                    None => {
                        self.exhausted = true;
                        Err(Fault::MalformedReply)
                    },
                    Some(found) => {
                        let start: i32 = reply.ovector[0];
                        let end: i32 = reply.ovector[1];
                        if start < self.offset as i32 {
                            self.exhausted = true;
                            return Err(Fault::MalformedReply);
                        }
                        if start < end {
                            self.offset = end as usize;
                        } else if (end as usize) < len {
                            self.offset = boundary_from(self.subject, end as usize + 1);
                        } else {
                            self.offset = end as usize;
                            self.exhausted = true;
                        }
                        self.ovector = reply.ovector;
                        Ok(Some(found))
                    },
                }
            },
        }
    }

    /// A second cursor at the same place, with its own offset vector. It is one
    /// more owner of the handle; from here on the two cursors move apart.
    pub fn clone(&self, code: &mut pcre) -> (copy: MatchIterator<'a>)
        requires
            1 <= old(code).refcount() < REFCOUNT_MAX,
        ensures
            copy.wf(),
            copy.same_place(self),
            copy.scratch() == self.scratch(),
            final(code).wf(),
            final(code).refcount() == old(code).refcount() + 1,
            final(code).same_pattern(old(code)),
    {
        proof {
            use_type_invariant(self);
        }
        pcre_refcount(code, 1);
        let mut ovector: Vec<i32> = Vec::new();
        let mut i: usize = 0;
        while i < self.ovector.len()
            invariant
                0 <= i <= self.ovector@.len(),
                ovector@ == self.ovector@.subrange(0, i as int),
            decreases self.ovector@.len() - i,
        {
            ovector.push(self.ovector[i]);
            i = i + 1;
            proof {
                assert(ovector@ =~= self.ovector@.subrange(0, i as int));
            }
        }
        proof {
            assert(ovector@ =~= self.ovector@);
        }
        MatchIterator {
            capture_count: self.capture_count,
            subject: self.subject,
            offset: self.offset,
            exhausted: self.exhausted,
            options: self.options.clone(),
            ovector,
        }
    }

    /// Gives up the cursor's share of the handle and says what is to be freed.
    pub fn release(self, code: &mut pcre) -> (todo: Release)
        requires
            old(code).refcount() >= 1,
        ensures
            released(old(code), final(code), todo),
    {
        pcre_release(code)
    }

    /// The call for the next match attempt, or `None` where the cursor is
    /// exhausted and no attempt is to be made.
    pub fn next_call(&self) -> (call: Option<ExecCall>)
        ensures
            call == if self.scan().exhausted {
                None
            } else {
                Some(
                    exec_call_for(
                        self.captures(),
                        None,
                        self.subject().spec_bytes().len() as int,
                        self.scan().offset,
                        exec_bits(self.options()),
                    ),
                )
            },
    {
        proof {
            use_type_invariant(self);
        }
        if self.exhausted {
            None
        } else {
            Some(
                ExecCall {
                    startoffset: self.offset as i32,
                    length: self.subject.as_bytes().len() as i32,
                    options: exec_options(&self.options),
                    ovecsize: (self.capture_count + 1) * 3,
                    mark: false,
                },
            )
        }
    }
}

} // verus!
