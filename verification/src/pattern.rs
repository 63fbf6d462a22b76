//! A compiled pattern and what can be done with it.

use crate::cursor::MatchIterator;
use crate::cursor::Scan;
use crate::detail::compile_bits;
use crate::detail::compile_fault;
use crate::detail::compile_options;
use crate::detail::exec_bits;
use crate::detail::exec_call_for;
use crate::detail::exec_options;
use crate::detail::exec_outcome;
use crate::detail::pcre;
use crate::detail::pcre_compile;
use crate::detail::pcre_exec;
use crate::detail::pcre_extra;
use crate::detail::pcre_refcount;
use crate::detail::pcre_release;
use crate::detail::released;
use crate::detail::pcre_study;
use crate::detail::study_options;
use crate::detail::study_outcome;
use crate::detail::CompileCall;
use crate::detail::CompileReply;
use crate::detail::ExecCall;
use crate::detail::ExecReply;
use crate::detail::Fault;
use crate::detail::Release;
use crate::detail::StudyCall;
use crate::detail::StudyReply;
use crate::detail::CAPTURE_COUNT_MAX;
use crate::detail::REFCOUNT_MAX;
use crate::error::CompilationError;
use crate::matched::match_data_ok;
use crate::matched::Match;
use crate::name_table::grouped;
use crate::name_table::name_end;
use crate::name_table::records;
use crate::name_table::NameTable;
use crate::option_set::mask_of;
use crate::option_set::OptionSet;
use crate::options::CompileOption;
use crate::options::ExecOption;
use crate::options::ExtraOption;
use crate::options::StudyOption;
use vstd::prelude::*;
use vstd::string::StringSliceAdditionalSpecFns;

verus! {

/// The place of the first zero byte in `bytes`, or the length of `bytes` where
/// there is none.
pub open spec fn first_nul(bytes: Seq<u8>) -> int {
    name_end(bytes, 0, bytes.len() as int)
}

/// The study call for a handle with the study data `extra`.
pub open spec fn study_call_for(extra: Option<pcre_extra>, options: Set<StudyOption>) -> StudyCall {
    StudyCall { options: mask_of(options), free_previous: extra is Some }
}

/// The study data after `options` have been set in it.
pub open spec fn with_extra_options(data: pcre_extra, options: Set<ExtraOption>) -> pcre_extra {
    pcre_extra {
        flags: data.flags | (mask_of(options) as u64),
        mark: data.mark || options.contains(ExtraOption::ExtraMark),
    }
}

/// A copy of a mark.
fn clone_mark(mark: &Option<String>) -> (copy: Option<String>)
    ensures
        copy == *mark,
{
    match mark {
        Some(text) => Some(text.clone()),
        None => None,
    }
}

/// One owner of a compiled pattern.
///
/// The pattern itself is the engine's; what this crate knows of it is the
/// handle, a `pcre`, which all owners of the pattern share and which is handed
/// to each operation. The owner keeps the number of capturing groups, read once
/// when the pattern was compiled, and the mark of the latest match attempt.
#[derive(Debug)]
pub struct Pcre {
    capture_count_: i32,
    mark: Option<String>,
}

impl Pcre {
    /// The number of capturing groups, group 0 not counted.
    pub closed spec fn captures(&self) -> int {
        self.capture_count_ as int
    }

    /// The mark of the latest match attempt that reported marks.
    pub closed spec fn spec_mark(&self) -> Option<String> {
        self.mark
    }

    /// The number of capturing groups is in range.
    pub open spec fn wf(&self) -> bool {
        0 <= self.captures() <= CAPTURE_COUNT_MAX
    }

    #[verifier::type_invariant]
    spec fn inv(&self) -> bool {
        self.wf()
    }

    /// The call that compiles `pattern` with `options`.
    ///
    /// A pattern with a zero byte in it cannot be handed to the engine: it is
    /// refused here, at the place of its first zero byte.
    pub fn compile_call(pattern: &str, options: &OptionSet<CompileOption>) -> (r: Result<
        CompileCall,
        CompilationError,
    >)
        ensures
            match r {
                Ok(call) => {
                    &&& first_nul(pattern.spec_bytes()) == pattern.spec_bytes().len()
                    &&& call.options == compile_bits(options@)
                },
                Err(e) => {
                    &&& first_nul(pattern.spec_bytes()) < pattern.spec_bytes().len()
                    &&& e.spec_offset() == first_nul(pattern.spec_bytes())
                    &&& e.spec_message() is None
                },
            },
    {
        let bytes: &[u8] = pattern.as_bytes();
        let len: usize = bytes.len();
        let mut i: usize = 0;
        while i < len && bytes[i] != 0
            invariant
                0 <= i <= len,
                len == bytes@.len(),
                first_nul(bytes@) == name_end(bytes@, i as int, len as int),
            decreases len - i,
        {
            i = i + 1;
        }
        if i < len {
            Err(CompilationError::new(None, i))
        } else {
            Ok(CompileCall { options: compile_options(options) })
        }
    }

    /// Takes the engine's reply to the call that compiles `pattern` without
    /// options. See `compile_with_options`.
    pub fn compile(pattern: &str, reply: CompileReply) -> (r: Result<
        Result<(Pcre, pcre), CompilationError>,
        Fault,
    >)
        ensures
            Self::compiled(pattern, Set::<CompileOption>::empty(), reply, r),
    {
        let no_options: OptionSet<CompileOption> = OptionSet::empty();
        Pcre::compile_with_options(pattern, &no_options, reply)
    }

    /// `r` is what compiling `pattern` with `options` gives on the reply
    /// `reply`.
    pub open spec fn compiled(
        pattern: &str,
        options: Set<CompileOption>,
        reply: CompileReply,
        r: Result<Result<(Pcre, pcre), CompilationError>, Fault>,
    ) -> bool {
        let bytes = pattern.spec_bytes();
        if first_nul(bytes) < bytes.len() {
            &&& r matches Ok(Err(e))
            &&& e.spec_offset() == first_nul(bytes)
            &&& e.spec_message() is None
        } else {
            match compile_fault(options, reply) {
                Some(fault) => r == Err::<Result<(Pcre, pcre), CompilationError>, Fault>(fault),
                None => match reply.code {
                    None => {
                        &&& r matches Ok(Err(e))
                        &&& e.spec_offset() == reply.erroffset
                        &&& e.spec_message() == match reply.err {
                            Some(text) => Some(text@),
                            None => None,
                        }
                    },
                    Some(info) => {
                        &&& r matches Ok(Ok(made))
                        &&& made.0.wf()
                        &&& made.0.captures() == info.capture_count
                        &&& made.0.spec_mark() is None
                        &&& made.1.wf()
                        &&& made.1.refcount() == 1
                        &&& made.1.extra() is None
                        &&& made.1.capture_count() == info.capture_count
                        &&& made.1.name_count() == info.name_count
                        &&& made.1.name_entry_size() == info.name_entry_size
                        &&& made.1.name_table() == info.name_table@
                    },
                },
            }
        }
    }

    /// Takes the engine's reply to the call that compiles `pattern` with
    /// `options`.
    ///
    /// Where the engine compiled the pattern, the result is the first owner of
    /// the new handle: the handle has one owner and no study data. Where the
    /// engine rejected the pattern, or the pattern holds a zero byte, the
    /// result is the compilation error.
    pub fn compile_with_options(
        pattern: &str,
        options: &OptionSet<CompileOption>,
        reply: CompileReply,
    ) -> (r: Result<Result<(Pcre, pcre), CompilationError>, Fault>)
        ensures
            Self::compiled(pattern, options@, reply, r),
    {
        match Pcre::compile_call(pattern, options) {
            Err(e) => Ok(Err(e)),
            Ok(_) => match pcre_compile(options, reply) {
                Err(fault) => Err(fault),
                Ok(Err((message, at))) => Ok(Err(CompilationError::new(message, at as usize))),
                Ok(Ok(code)) => {
                    let mut code = code;
                    pcre_refcount(&mut code, 1);
                    let capture_count: i32 = code.captures();
                    Ok(Ok((Pcre { capture_count_: capture_count, mark: None }, code)))
                },
            },
        }
    }

    /// The call for one match attempt on `subject` from `startoffset` on.
    pub fn exec_call(
        &self,
        code: &pcre,
        subject: &str,
        startoffset: usize,
        options: &OptionSet<ExecOption>,
    ) -> (call: ExecCall)
        requires
            startoffset <= subject.spec_bytes().len() <= i32::MAX,
        ensures
            call == exec_call_for(
                self.captures(),
                code.extra(),
                subject.spec_bytes().len() as int,
                startoffset as int,
                exec_bits(options@),
            ),
    {
        proof {
            use_type_invariant(self);
        }
        let wired: bool = match code.study_data() {
            Some(data) => data.mark,
            None => false,
        };
        ExecCall {
            startoffset: startoffset as i32,
            length: subject.as_bytes().len() as i32,
            options: exec_options(options),
            ovecsize: (self.capture_count_ + 1) * 3,
            mark: wired,
        }
    }

    /// `r` and the owner `after` are what the owner `before` makes of `reply`,
    /// where `reply` answers `call` for a match attempt on `subject`.
    ///
    /// A reply that reports marks leaves its mark with the owner, match or no
    /// match. A match carries the owner's mark and a copy of the offsets of
    /// all groups. A faulty reply changes nothing.
    pub open spec fn executed<'a>(
        before: &Pcre,
        after: &Pcre,
        subject: &'a str,
        call: ExecCall,
        reply: ExecReply,
        r: Result<Option<Match<'a>>, Fault>,
    ) -> bool {
        let mark = if call.mark {
            reply.mark
        } else {
            before.spec_mark()
        };
        &&& after.captures() == before.captures()
        &&& match exec_outcome(call, reply) {
            Err(fault) => r == Err::<Option<Match<'a>>, Fault>(fault) && after.spec_mark()
                == before.spec_mark(),
            Ok(rc) => if rc < 0 {
                r matches Ok(None) && after.spec_mark() == mark
            } else if !match_data_ok(
                subject.spec_bytes(),
                reply.ovector@,
                before.captures() + 1,
                rc as int,
            ) {
                r == Err::<Option<Match<'a>>, Fault>(Fault::MalformedReply) && after.spec_mark()
                    == before.spec_mark()
            } else {
                &&& r matches Ok(Some(m))
                &&& m.wf()
                &&& m.subject() == subject
                &&& m.offsets() == reply.ovector@.subrange(0, 2 * (before.captures() + 1))
                &&& m.count() == rc
                &&& m.spec_mark() == mark
                &&& after.spec_mark() == mark
            },
        }
    }

    /// Takes the engine's reply to a match attempt on `subject` from its start,
    /// without options. See `exec_from_with_options`.
    pub fn exec<'a>(&mut self, code: &pcre, subject: &'a str, reply: ExecReply) -> (r: Result<
        Option<Match<'a>>,
        Fault,
    >)
        requires
            subject.spec_bytes().len() <= i32::MAX,
        ensures
            Self::executed(
                old(self),
                final(self),
                subject,
                exec_call_for(
                    old(self).captures(),
                    code.extra(),
                    subject.spec_bytes().len() as int,
                    0,
                    exec_bits(Set::<ExecOption>::empty()),
                ),
                reply,
                r,
            ),
    {
        self.exec_from(code, subject, 0, reply)
    }

    /// Takes the engine's reply to a match attempt on `subject` from
    /// `startoffset` on, without options. See `exec_from_with_options`.
    pub fn exec_from<'a>(
        &mut self,
        code: &pcre,
        subject: &'a str,
        startoffset: usize,
        reply: ExecReply,
    ) -> (r: Result<Option<Match<'a>>, Fault>)
        requires
            startoffset <= subject.spec_bytes().len() <= i32::MAX,
        ensures
            Self::executed(
                old(self),
                final(self),
                subject,
                exec_call_for(
                    old(self).captures(),
                    code.extra(),
                    subject.spec_bytes().len() as int,
                    startoffset as int,
                    exec_bits(Set::<ExecOption>::empty()),
                ),
                reply,
                r,
            ),
    {
        let no_options: OptionSet<ExecOption> = OptionSet::empty();
        self.exec_from_with_options(code, subject, startoffset, &no_options, reply)
    }

    /// Takes the engine's reply to the match attempt on `subject` from
    /// `startoffset` on with `options`: the call of `exec_call` with the same
    /// arguments.
    ///
    /// The result is the match, or `None` where the subject does not match.
    /// Every other reply is a fault.
    pub fn exec_from_with_options<'a>(
        &mut self,
        code: &pcre,
        subject: &'a str,
        startoffset: usize,
        options: &OptionSet<ExecOption>,
        reply: ExecReply,
    ) -> (r: Result<Option<Match<'a>>, Fault>)
        requires
            startoffset <= subject.spec_bytes().len() <= i32::MAX,
        ensures
            Self::executed(
                old(self),
                final(self),
                subject,
                exec_call_for(
                    old(self).captures(),
                    code.extra(),
                    subject.spec_bytes().len() as int,
                    startoffset as int,
                    exec_bits(options@),
                ),
                reply,
                r,
            ),
    {
        proof {
            use_type_invariant(&*self);
        }
        let call: ExecCall = self.exec_call(code, subject, startoffset, options);
        match pcre_exec(&call, &reply) {
            Err(fault) => Err(fault),
            Ok(rc) => {
                let mark: Option<String> = if call.mark {
                    clone_mark(&reply.mark)
                } else {
                    clone_mark(&self.mark)
                };
                if rc < 0 {
                    self.mark = mark;
                    return Ok(None);
                }
                let groups: usize = (self.capture_count_ + 1) as usize;
                match Match::new(subject, groups, rc, &reply.ovector, clone_mark(&mark)) {
                    None => Err(Fault::MalformedReply),
                    Some(found) => {
                        self.mark = mark;
                        Ok(Some(found))
                    },
                }
            },
        }
    }

    /// A cursor over the matches in `subject`, without options. See
    /// `matches_with_options`.
    pub fn matches<'a>(&self, code: &mut pcre, subject: &'a str) -> (cursor: MatchIterator<'a>)
        requires
            1 <= old(code).refcount() < REFCOUNT_MAX,
            subject.spec_bytes().len() <= i32::MAX,
        ensures
            Self::scanning(self, old(code), final(code), subject, Set::<ExecOption>::empty(), cursor),
    {
        let no_options: OptionSet<ExecOption> = OptionSet::empty();
        self.matches_with_options(code, subject, &no_options)
    }

    /// `cursor` is a new cursor of this owner's pattern over `subject`, and
    /// `after` is the handle `before` with one owner more.
    pub open spec fn scanning<'a>(
        &self,
        before: &pcre,
        after: &pcre,
        subject: &'a str,
        options: Set<ExecOption>,
        cursor: MatchIterator<'a>,
    ) -> bool {
        &&& after.wf()
        &&& after.refcount() == before.refcount() + 1
        &&& after.same_pattern(before)
        &&& cursor.wf()
        &&& cursor.subject() == subject
        &&& cursor.captures() == self.captures()
        &&& cursor.scan() == (Scan { offset: 0, exhausted: false })
        &&& cursor.options() == options
        &&& cursor.scratch() == Seq::new(((self.captures() + 1) * 3) as nat, |i: int| 0i32)
    }

    /// A cursor over the matches in `subject`, each attempt made with
    /// `options`. The cursor starts at offset 0 and is one more owner of the
    /// handle.
    pub fn matches_with_options<'a>(
        &self,
        code: &mut pcre,
        subject: &'a str,
        options: &OptionSet<ExecOption>,
    ) -> (cursor: MatchIterator<'a>)
        requires
            1 <= old(code).refcount() < REFCOUNT_MAX,
            subject.spec_bytes().len() <= i32::MAX,
        ensures
            Self::scanning(self, old(code), final(code), subject, options@, cursor),
    {
        proof {
            use_type_invariant(self);
        }
        pcre_refcount(code, 1);
        MatchIterator::new(self.capture_count_, subject, options)
    }

    /// The number of named capturing groups of the pattern.
    pub fn name_count(&self, code: &pcre) -> (n: usize)
        ensures
            n == code.name_count(),
    {
        code.names()
    }

    /// The names of the pattern's capturing groups, each with the numbers of
    /// the groups that carry it. A name has more than one number where the
    /// pattern was compiled to allow that.
    pub fn name_table(&self, code: &pcre) -> (names: NameTable)
        ensures
            names@ == grouped(
                records(code.name_table(), code.name_count(), code.name_entry_size()),
            ),
    {
        NameTable::decode(code.directory(), code.names(), code.name_width())
    }

    /// The call that studies the pattern with `options`, or `None` where the
    /// handle has other owners: then the pattern is not studied.
    pub fn study_call(&self, code: &pcre, options: &OptionSet<StudyOption>) -> (call: Option<
        StudyCall,
    >)
        ensures
            call == if code.refcount() == 1 {
                Some(study_call_for(code.extra(), options@))
            } else {
                None
            },
    {
        if code.owners() != 1 {
            None
        } else {
            Some(
                StudyCall {
                    options: study_options(options),
                    free_previous: code.study_data().is_some(),
                },
            )
        }
    }

    /// Takes the engine's reply to the study call without options. See
    /// `study_with_options`.
    pub fn study(&mut self, code: &mut pcre, reply: StudyReply) -> (r: Result<bool, Fault>)
        ensures
            Self::studied(old(code), final(code), Set::<StudyOption>::empty(), reply, r),
            final(self).captures() == old(self).captures(),
            final(self).spec_mark() == old(self).spec_mark(),
    {
        let no_options: OptionSet<StudyOption> = OptionSet::empty();
        self.study_with_options(code, &no_options, reply)
    }

    /// `r` and the handle `after` are what studying with `options` makes of
    /// the handle `before` on the reply `reply`.
    ///
    /// A handle with other owners is left as it is and the result is `false`,
    /// whatever the reply. Else the study data that the engine gave takes the
    /// place of the study data that was there, and the result says whether
    /// the engine gave some.
    pub open spec fn studied(
        before: &pcre,
        after: &pcre,
        options: Set<StudyOption>,
        reply: StudyReply,
        r: Result<bool, Fault>,
    ) -> bool {
        &&& after.wf()
        &&& after.same_code(before)
        &&& if before.refcount() != 1 {
            r == Ok::<bool, Fault>(false) && after.extra() == before.extra()
        } else {
            match study_outcome(study_call_for(before.extra(), options), reply) {
                Err(fault) => r == Err::<bool, Fault>(fault) && after.extra() == before.extra(),
                Ok(extra) => r == Ok::<bool, Fault>(extra is Some) && after.extra() == extra,
            }
        }
    }

    /// Takes the engine's reply to the call of `study_call` with the same
    /// arguments.
    pub fn study_with_options(
        &mut self,
        code: &mut pcre,
        options: &OptionSet<StudyOption>,
        reply: StudyReply,
    ) -> (r: Result<bool, Fault>)
        ensures
            Self::studied(old(code), final(code), options@, reply, r),
            final(self).captures() == old(self).captures(),
            final(self).spec_mark() == old(self).spec_mark(),
    {
        proof {
            use_type_invariant(&*code);
        }
        match self.study_call(code, options) {
            None => Ok(false),
            Some(call) => match pcre_study(&call, &reply) {
                Err(fault) => Err(fault),
                Ok(extra) => {
                    code.attach(extra);
                    Ok(extra.is_some())
                },
            },
        }
    }

    /// The mark of the latest match attempt that reported marks, or `None`
    /// where no attempt has reported one.
    pub fn get_mark(&self) -> (mark: Option<String>)
        ensures
            mark == self.spec_mark(),
    {
        clone_mark(&self.mark)
    }

    /// Sets `options` in the study data of the pattern. With `ExtraMark` among
    /// them, match attempts report marks from then on.
    ///
    /// The result is `false`, and nothing changes, where the pattern has no
    /// study data or the handle has other owners.
    pub fn set_extra_options(&mut self, code: &mut pcre, options: &OptionSet<ExtraOption>) -> (done:
        bool)
        ensures
            final(code).wf(),
            final(code).same_code(old(code)),
            final(self).captures() == old(self).captures(),
            final(self).spec_mark() == old(self).spec_mark(),
            match old(code).extra() {
                Some(data) if old(code).refcount() == 1 => done && final(code).extra() == Some(
                    with_extra_options(data, options@),
                ),
                _ => !done && final(code).extra() == old(code).extra(),
            },
    {
        proof {
            use_type_invariant(&*code);
        }
        if code.owners() != 1 {
            return false;
        }
        match code.study_data() {
            None => false,
            Some(data) => {
                let flags: u64 = data.flags | (options.to_bitmask() as u64);
                let mark: bool = data.mark || options.contains(ExtraOption::ExtraMark);
                code.attach(Some(pcre_extra { flags, mark }));
                true
            },
        }
    }

    /// Gives up this owner's share of the handle and says what is to be freed.
    pub fn release(self, code: &mut pcre) -> (todo: Release)
        requires
            old(code).refcount() >= 1,
        ensures
            released(old(code), final(code), todo),
    {
        pcre_release(code)
    }

    /// The number of capturing groups of the pattern. Group 0, the whole
    /// match, is not counted.
    pub fn capture_count(&self) -> (n: usize)
        ensures
            n == self.captures(),
    {
        proof {
            use_type_invariant(self);
        }
        self.capture_count_ as usize
    }
}

} // verus!
