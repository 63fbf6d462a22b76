//! One successful match: the spans of its groups in the subject.

use vstd::prelude::*;
use vstd::string::StringSliceAdditionalSpecFns;
use vstd::utf8::encode_utf8_valid_utf8;
use vstd::utf8::is_char_boundary;
use vstd::utf8::is_char_boundary_iff_not_is_continuation_byte;
use vstd::utf8::is_char_boundary_start_end_of_seq;

verus! {

/// `start..end` is a span of `bytes` that begins and ends between characters.
pub open spec fn span_ok(bytes: Seq<u8>, start: int, end: int) -> bool {
    &&& 0 <= start <= end <= bytes.len()
    &&& is_char_boundary(bytes, start)
    &&& is_char_boundary(bytes, end)
}

/// A pair of offsets is either the mark of a group that took no part in the
/// match, -1 twice, or a span of the subject.
pub open spec fn pair_ok(bytes: Seq<u8>, start: int, end: int) -> bool {
    (start == -1 && end == -1) || span_ok(bytes, start, end)
}

/// What the engine reported of a match fits a subject with the bytes `bytes`
/// and a pattern with `groups` groups, group 0 counted: the vector holds a pair
/// for each group, each pair is in order, the whole match has a span, and the
/// number of substrings is not above the number of groups.
pub open spec fn match_data_ok(bytes: Seq<u8>, ovector: Seq<i32>, groups: int, rc: int) -> bool {
    &&& 1 <= groups
    &&& 2 * groups <= ovector.len()
    &&& 0 <= rc <= groups
    &&& bytes.len() <= i32::MAX
    &&& span_ok(bytes, ovector[0] as int, ovector[1] as int)
    &&& forall|g: int|
        0 <= g < groups ==> pair_ok(bytes, #[trigger] ovector[2 * g] as int, ovector[2 * g + 1] as int)
}

/// A match of a pattern in a subject.
///
/// The match holds its own copy of the offsets that the engine reported, so
/// that nothing that happens later to the engine's buffers can change it.
#[derive(Debug)]
pub struct Match<'a> {
    subject: &'a str,
    partial_ovector: Vec<i32>,
    string_count_: i32,
    mark: Option<String>,
}

impl<'a> Match<'a> {
    /// The subject that was matched.
    pub closed spec fn subject(&self) -> &'a str {
        self.subject
    }

    /// The offsets of the groups: start and end of group 0, then of group 1,
    /// and so on.
    pub closed spec fn offsets(&self) -> Seq<i32> {
        self.partial_ovector@
    }

    /// The number of substrings that the engine filled in.
    pub closed spec fn count(&self) -> int {
        self.string_count_ as int
    }

    /// The mark that the match passed, where the pattern reports marks.
    pub closed spec fn spec_mark(&self) -> Option<String> {
        self.mark
    }

    /// The number of groups of the pattern, group 0 counted.
    pub open spec fn groups(&self) -> int {
        self.offsets().len() as int / 2
    }

    /// The offsets fit the subject.
    pub open spec fn wf(&self) -> bool {
        &&& self.offsets().len() == 2 * self.groups()
        &&& match_data_ok(self.subject().spec_bytes(), self.offsets(), self.groups(), self.count())
    }

    #[verifier::type_invariant]
    spec fn inv(&self) -> bool {
        self.wf()
    }

    /// Group `n` took part in the match.
    pub open spec fn is_set(&self, n: int) -> bool {
        0 <= n < self.groups() && self.offsets()[2 * n] >= 0
    }

    /// The start of group `n`, or `usize::MAX` where the group took no part.
    pub open spec fn start_of(&self, n: int) -> usize {
        if self.offsets()[2 * n] < 0 {
            usize::MAX
        } else {
            self.offsets()[2 * n] as usize
        }
    }

    /// The end of group `n`, or `usize::MAX` where the group took no part.
    pub open spec fn end_of(&self, n: int) -> usize {
        if self.offsets()[2 * n + 1] < 0 {
            usize::MAX
        } else {
            self.offsets()[2 * n + 1] as usize
        }
    }

    /// Makes a match from what the engine reported, if that fits the subject
    /// and a pattern with `groups` groups, group 0 counted. The match keeps a
    /// copy of the first `2 * groups` offsets.
    pub fn new(
        subject: &'a str,
        groups: usize,
        rc: i32,
        ovector: &Vec<i32>,
        mark: Option<String>,
    ) -> (made: Option<Match<'a>>)
        ensures
            made is Some <==> match_data_ok(
                subject.spec_bytes(),
                ovector@,
                groups as int,
                rc as int,
            ),
            made matches Some(m) ==> {
                &&& m.wf()
                &&& m.subject() == subject
                &&& m.offsets() == ovector@.subrange(0, 2 * groups)
                &&& m.groups() == groups
                &&& m.count() == rc
                &&& m.spec_mark() == mark
            },
    {
        let len: usize = subject.as_bytes().len();
        let slots: usize = ovector.len();
        if groups < 1 || len > i32::MAX as usize || rc < 0 {
            return None;
        }
        if slots / 2 < groups || rc as usize > groups {
            return None;
        }
        if ovector[0] < 0 {
            proof {
                assert(!span_ok(subject.spec_bytes(), ovector@[0] as int, ovector@[1] as int));
            }
            return None;
        }
        let mut copy: Vec<i32> = Vec::new();
        let mut g: usize = 0;
        while g < groups
            invariant
                0 <= g <= groups,
                2 * groups <= ovector@.len(),
                ovector@.len() == slots,
                len == subject.spec_bytes().len(),
                len <= i32::MAX,
                copy@ == ovector@.subrange(0, 2 * g),
                forall|k: int|
                    0 <= k < g ==> pair_ok(
                        subject.spec_bytes(),
                        #[trigger] ovector@[2 * k] as int,
                        ovector@[2 * k + 1] as int,
                    ),
            decreases groups - g,
        {
            let start: i32 = ovector[2 * g];
            let end: i32 = ovector[2 * g + 1];
            let unset: bool = start == -1 && end == -1;
            let span: bool = 0 <= start && start <= end && end as usize <= len
                && subject.is_char_boundary(start as usize) && subject.is_char_boundary(
                end as usize,
            );
            if !unset && !span {
                proof {
                    assert(!pair_ok(
                        subject.spec_bytes(),
                        ovector@[2 * g] as int,
                        ovector@[2 * g + 1] as int,
                    ));
                }
                return None;
            }
            copy.push(start);
            copy.push(end);
            g = g + 1;
            proof {
                assert(copy@ =~= ovector@.subrange(0, 2 * g));
            }
        }
        proof {
            let bytes = subject.spec_bytes();
            let zero: int = 0;
            assert(pair_ok(bytes, ovector@[2 * zero] as int, ovector@[2 * zero + 1] as int));
            assert(copy@.len() as int / 2 == groups);
            assert forall|k: int| 0 <= k < groups implies pair_ok(
                bytes,
                #[trigger] copy@[2 * k] as int,
                copy@[2 * k + 1] as int,
            ) by {
                assert(copy@[2 * k] == ovector@[2 * k]);
                assert(copy@[2 * k + 1] == ovector@[2 * k + 1]);
            }
        }
        let made = Match { subject, partial_ovector: copy, string_count_: rc, mark };
        Some(made)
    }

    /// The number of groups of the pattern, group 0 counted: one more than
    /// its number of capturing groups.
    pub fn group_count(&self) -> (n: usize)
        ensures
            n == self.groups(),
    {
        self.partial_ovector.len() / 2
    }

    /// Whether group `n` exists and took part in the match.
    pub fn has_group(&self, n: usize) -> (set: bool)
        ensures
            set == self.is_set(n as int),
    {
        n < self.partial_ovector.len() / 2 && self.partial_ovector[2 * n] >= 0
    }

    /// The start of group `n` in the subject, counted in bytes. For a group
    /// that took no part in the match it is `usize::MAX`.
    pub fn group_start(&self, n: usize) -> (start: usize)
        requires
            n < self.groups(),
        ensures
            start == self.start_of(n as int),
    {
        proof {
            assert(self.partial_ovector@.len() == self.partial_ovector.len());
        }
        let at: i32 = self.partial_ovector[2 * n];
        if at < 0 {
            usize::MAX
        } else {
            at as usize
        }
    }

    /// The end of group `n` in the subject, counted in bytes. For a group that
    /// took no part in the match it is `usize::MAX`.
    pub fn group_end(&self, n: usize) -> (end: usize)
        requires
            n < self.groups(),
        ensures
            end == self.end_of(n as int),
    {
        proof {
            assert(self.partial_ovector@.len() == self.partial_ovector.len());
        }
        let at: i32 = self.partial_ovector[2 * n + 1];
        if at < 0 {
            usize::MAX
        } else {
            at as usize
        }
    }

    /// The length of group `n` in bytes: its end less its start. For a group
    /// that took no part in the match it is zero.
    pub fn group_len(&self, n: usize) -> (len: usize)
        requires
            n < self.groups(),
        ensures
            len == self.end_of(n as int) - self.start_of(n as int),
            !self.is_set(n as int) ==> len == 0,
    {
        proof {
            use_type_invariant(self);
            let k: int = n as int;
            assert(pair_ok(
                self.subject().spec_bytes(),
                self.offsets()[2 * k] as int,
                self.offsets()[2 * k + 1] as int,
            ));
        }
        self.group_end(n) - self.group_start(n)
    }

    /// The part of the subject that group `n` matched.
    pub fn group(&self, n: usize) -> (text: &'a str)
        requires
            self.is_set(n as int),
        ensures
            text.spec_bytes() == self.subject().spec_bytes().subrange(
                self.start_of(n as int) as int,
                self.end_of(n as int) as int,
            ),
    {
        proof {
            use_type_invariant(self);
            let k: int = n as int;
            assert(pair_ok(
                self.subject().spec_bytes(),
                self.offsets()[2 * k] as int,
                self.offsets()[2 * k + 1] as int,
            ));
            assert(self.partial_ovector@.len() == self.partial_ovector.len());
        }
        let start: usize = self.partial_ovector[2 * n] as usize;
        let end: usize = self.partial_ovector[2 * n + 1] as usize;
        let (head, _) = self.subject.split_at(end);
        proof {
            let bytes = self.subject.spec_bytes();
            encode_utf8_valid_utf8(self.subject@);
            encode_utf8_valid_utf8(head@);
            assert(head.spec_bytes() =~= bytes.subrange(0, end as int));
            if start < end {
                is_char_boundary_iff_not_is_continuation_byte(bytes, start as int);
                is_char_boundary_iff_not_is_continuation_byte(head.spec_bytes(), start as int);
            } else {
                is_char_boundary_start_end_of_seq(head.spec_bytes());
            }
        }
        let (_, text) = head.split_at(start);
        proof {
            assert(text.spec_bytes() =~= self.subject.spec_bytes().subrange(
                start as int,
                end as int,
            ));
        }
        text
    }

    /// The number of substrings that the engine filled in: one more than the
    /// number of the last group that took part in the match.
    pub fn string_count(&self) -> (n: usize)
        ensures
            n == self.count(),
    {
        proof {
            use_type_invariant(self);
        }
        self.string_count_ as usize
    }

    /// The mark that the match passed, where the pattern reports marks.
    pub fn mark(&self) -> (mark: Option<String>)
        ensures
            mark == self.spec_mark(),
    {
        match &self.mark {
            Some(text) => Some(text.clone()),
            None => None,
        }
    }
}

} // verus!
