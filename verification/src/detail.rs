//! The interface to the native engine, as plain values.
//!
//! The engine is reached from outside this crate. For each of its operations
//! this module gives the call that is handed to it, the shape of its reply, and
//! the decision on that reply. A reply that is not an ordinary outcome is a
//! `Fault`: the caller is expected to abort on it.

use crate::name_table::directory_is_valid;
use crate::name_table::directory_ok;
use crate::option_set::mask_of;
use crate::option_set::OptionSet;
use crate::options::CompileOption;
use crate::options::ExecOption;
use crate::options::StudyOption;
use vstd::prelude::*;

verus! {

/// Treat pattern and subject as UTF-8.
pub const PCRE_UTF8: u32 = 0x00000800;

/// Do not check pattern and subject for valid UTF-8.
pub const PCRE_NO_UTF8_CHECK: u32 = 0x00002000;

/// The engine's return code for "the subject does not match".
pub const PCRE_ERROR_NOMATCH: i32 = -1;

/// The engine's return code for a missing argument.
pub const PCRE_ERROR_NULL: i32 = -2;

/// Query code: the number of capturing groups.
pub const PCRE_INFO_CAPTURECOUNT: i32 = 2;

/// Query code: the width of one record of the name directory.
pub const PCRE_INFO_NAMEENTRYSIZE: i32 = 7;

/// Query code: the number of records of the name directory.
pub const PCRE_INFO_NAMECOUNT: i32 = 8;

/// Query code: the bytes of the name directory.
pub const PCRE_INFO_NAMETABLE: i32 = 9;

/// The largest number of owners that one handle can have.
pub const REFCOUNT_MAX: i32 = 65535;

/// The largest number of capturing groups that a pattern can have.
pub const CAPTURE_COUNT_MAX: i32 = 65535;

/// A reply of the engine that is no ordinary outcome.
#[derive(Clone, Copy, Debug, PartialEq, Eq, Structural)]
pub enum Fault {
    /// The reply answers another call than the one that was made.
    UnexpectedReply,
    /// The engine reported the given error code.
    EngineError(i32),
    /// The reply's data does not have the shape that the call asked for.
    MalformedReply,
}

/// The call that compiles a pattern.
#[derive(Clone, Copy, Debug, PartialEq, Eq, Structural)]
pub struct CompileCall {
    /// The option bits for the engine.
    pub options: u32,
}

/// What the engine tells about a pattern that it has compiled.
#[derive(Debug)]
pub struct PatternInfo {
    /// The number of capturing groups, group 0 not counted.
    pub capture_count: i32,
    /// The number of records of the name directory.
    pub name_count: i32,
    /// The width of one record of the name directory.
    pub name_entry_size: i32,
    /// The bytes of the name directory.
    pub name_table: Vec<u8>,
}

/// The engine's reply to a `CompileCall`.
#[derive(Debug)]
pub struct CompileReply {
    /// The call that this reply answers.
    pub call: CompileCall,
    /// The compiled pattern, or `None` where the engine rejected the pattern.
    pub code: Option<PatternInfo>,
    /// The engine's message, where it rejected the pattern.
    pub err: Option<String>,
    /// The place in the pattern at which the engine gave up.
    pub erroffset: i32,
}

/// The call that runs one match attempt.
#[derive(Clone, Copy, Debug, PartialEq, Eq, Structural)]
pub struct ExecCall {
    /// The offset in the subject at which the attempt starts.
    pub startoffset: i32,
    /// The length of the subject.
    pub length: i32,
    /// The option bits for the engine.
    pub options: u32,
    /// The length of the offset vector that the engine may fill.
    pub ovecsize: i32,
    /// Whether the engine is to report the mark that the match passed.
    pub mark: bool,
}

/// The engine's reply to an `ExecCall`.
#[derive(Debug)]
pub struct ExecReply {
    /// The call that this reply answers.
    pub call: ExecCall,
    /// The engine's return code.
    pub rc: i32,
    /// The offset vector as the engine left it.
    pub ovector: Vec<i32>,
    /// The mark that the engine reported, where the call asked for it.
    pub mark: Option<String>,
}

/// The call that studies a pattern.
#[derive(Clone, Copy, Debug, PartialEq, Eq, Structural)]
pub struct StudyCall {
    /// The option bits for the engine.
    pub options: u32,
    /// Whether study data of an earlier call is to be freed first.
    pub free_previous: bool,
}

/// The engine's reply to a `StudyCall`.
#[derive(Debug)]
pub struct StudyReply {
    /// The call that this reply answers.
    pub call: StudyCall,
    /// The flags of the study data, or `None` where the engine returned none.
    pub flags: Option<u64>,
    /// The engine's message, where studying failed.
    pub err: Option<String>,
}

/// The study data of a pattern, as far as this crate reads it.
#[allow(non_camel_case_types)]
#[derive(Clone, Copy, Debug, PartialEq, Eq, Structural)]
pub struct pcre_extra {
    /// Which fields of the study data the engine is to use.
    pub flags: u64,
    /// Whether the engine reports marks through this study data.
    pub mark: bool,
}

/// A compiled pattern of the engine, as far as this crate reads it: the number
/// of its owners, what the engine tells about the pattern, and the study data
/// attached to it.
#[allow(non_camel_case_types)]
#[derive(Debug)]
pub struct pcre {
    refcount: i32,
    capture_count: i32,
    name_count: usize,
    name_entry_size: usize,
    name_table: Vec<u8>,
    extra: Option<pcre_extra>,
}

/// What an owner that gives up a handle has to do.
#[derive(Clone, Copy, Debug, PartialEq, Eq, Structural)]
pub enum Release {
    /// Other owners remain: nothing is freed.
    Retain,
    /// This was the last owner: free the study data first, where `study` says
    /// that there is some, and then the compiled pattern.
    Free { study: bool },
}

impl pcre {
    /// The number of owners.
    pub closed spec fn refcount(&self) -> int {
        self.refcount as int
    }

    /// The number of capturing groups.
    pub closed spec fn capture_count(&self) -> int {
        self.capture_count as int
    }

    /// The number of records of the name directory.
    pub closed spec fn name_count(&self) -> int {
        self.name_count as int
    }

    /// The width of one record of the name directory.
    pub closed spec fn name_entry_size(&self) -> int {
        self.name_entry_size as int
    }

    /// The bytes of the name directory.
    pub closed spec fn name_table(&self) -> Seq<u8> {
        self.name_table@
    }

    /// The study data attached to the pattern.
    pub closed spec fn extra(&self) -> Option<pcre_extra> {
        self.extra
    }

    /// The counts are in range and the name directory is well formed.
    pub open spec fn wf(&self) -> bool {
        &&& 0 <= self.refcount() <= REFCOUNT_MAX
        &&& 0 <= self.capture_count() <= CAPTURE_COUNT_MAX
        &&& directory_ok(self.name_table(), self.name_count(), self.name_entry_size())
    }

    /// What holds of every handle.
    #[verifier::type_invariant]
    pub open spec fn inv(&self) -> bool {
        self.wf()
    }

    /// Two handles differ in nothing but the number of owners.
    pub open spec fn same_pattern(&self, other: &pcre) -> bool {
        &&& self.capture_count() == other.capture_count()
        &&& self.name_count() == other.name_count()
        &&& self.name_entry_size() == other.name_entry_size()
        &&& self.name_table() == other.name_table()
        &&& self.extra() == other.extra()
    }

    /// Two handles differ in nothing but the study data.
    pub open spec fn same_code(&self, other: &pcre) -> bool {
        &&& self.refcount() == other.refcount()
        &&& self.capture_count() == other.capture_count()
        &&& self.name_count() == other.name_count()
        &&& self.name_entry_size() == other.name_entry_size()
        &&& self.name_table() == other.name_table()
    }

    /// The number of owners.
    pub fn owners(&self) -> (n: i32)
        ensures
            n == self.refcount(),
            0 <= n <= REFCOUNT_MAX,
    {
        proof {
            use_type_invariant(self);
        }
        self.refcount
    }

    /// The number of capturing groups.
    pub fn captures(&self) -> (n: i32)
        ensures
            n == self.capture_count(),
            0 <= n <= CAPTURE_COUNT_MAX,
    {
        proof {
            use_type_invariant(self);
        }
        self.capture_count
    }

    /// The number of records of the name directory.
    pub fn names(&self) -> (n: usize)
        ensures
            n == self.name_count(),
    {
        self.name_count
    }

    /// The width of one record of the name directory.
    pub fn name_width(&self) -> (n: usize)
        ensures
            n == self.name_entry_size(),
    {
        self.name_entry_size
    }

    /// The bytes of the name directory.
    pub fn directory(&self) -> (table: &Vec<u8>)
        ensures
            table@ == self.name_table(),
            directory_ok(table@, self.name_count(), self.name_entry_size()),
    {
        proof {
            use_type_invariant(self);
        }
        &self.name_table
    }

    /// The study data attached to the pattern.
    pub fn study_data(&self) -> (extra: Option<pcre_extra>)
        ensures
            extra == self.extra(),
    {
        self.extra
    }

    /// Attaches `extra` in place of the study data that was there.
    pub(crate) fn attach(&mut self, extra: Option<pcre_extra>)
        ensures
            final(self).wf(),
            final(self).extra() == extra,
            final(self).same_code(old(self)),
    {
        proof {
            use_type_invariant(&*self);
        }
        self.extra = extra;
    }
}

/// The option bits of a compile call: those of `options`, and always the two
/// that make the engine take pattern and subject as UTF-8 without checking.
pub open spec fn compile_bits(options: Set<CompileOption>) -> u32 {
    mask_of(options) | PCRE_UTF8 | PCRE_NO_UTF8_CHECK
}

/// The option bits of a match attempt: those of `options`, and always the one
/// that makes the engine take the subject as UTF-8 without checking.
pub open spec fn exec_bits(options: Set<ExecOption>) -> u32 {
    mask_of(options) | PCRE_NO_UTF8_CHECK
}

/// Whether the engine reports marks through `extra`.
pub open spec fn mark_wired(extra: Option<pcre_extra>) -> bool {
    extra matches Some(data) && data.mark
}

/// The call for one match attempt on a subject of `length` bytes from
/// `startoffset` on, for a pattern with `capture_count` groups and the study
/// data `extra`. The offset vector has three places for each group, group 0
/// counted.
pub open spec fn exec_call_for(
    capture_count: int,
    extra: Option<pcre_extra>,
    length: int,
    startoffset: int,
    options: u32,
) -> ExecCall {
    ExecCall {
        startoffset: startoffset as i32,
        length: length as i32,
        options,
        ovecsize: ((capture_count + 1) * 3) as i32,
        mark: mark_wired(extra),
    }
}

/// What an owner has to do who gives up a handle that has `owners` owners:
/// free it if it is the only one, the study data first where there is some.
pub open spec fn release_of(owners: int, study: bool) -> Release {
    if owners == 1 {
        Release::Free { study }
    } else {
        Release::Retain
    }
}

/// One owner has given up the handle `before`: `after` is the handle then and
/// `todo` what that owner has to free. The last owner frees the study data,
/// where there is some, and then the compiled pattern, and the handle is left
/// without study data.
pub open spec fn released(before: &pcre, after: &pcre, todo: Release) -> bool {
    &&& after.wf()
    &&& after.refcount() == before.refcount() - 1
    &&& after.capture_count() == before.capture_count()
    &&& after.name_count() == before.name_count()
    &&& after.name_entry_size() == before.name_entry_size()
    &&& after.name_table() == before.name_table()
    &&& todo == release_of(before.refcount(), before.extra() is Some)
    &&& after.extra() == if todo is Free {
        None
    } else {
        before.extra()
    }
}

/// What the engine tells about a pattern is in range and its name directory is
/// well formed.
pub open spec fn info_ok(info: PatternInfo) -> bool {
    &&& 0 <= info.capture_count <= CAPTURE_COUNT_MAX
    &&& directory_ok(info.name_table@, info.name_count as int, info.name_entry_size as int)
}

/// The fault in a reply to the compile call for `options`, if there is one.
pub open spec fn compile_fault(options: Set<CompileOption>, reply: CompileReply) -> Option<Fault> {
    if reply.call.options != compile_bits(options) {
        Some(Fault::UnexpectedReply)
    } else {
        match reply.code {
            None => if reply.erroffset < 0 {
                Some(Fault::MalformedReply)
            } else {
                None
            },
            Some(info) => if reply.erroffset != 0 || !info_ok(info) {
                Some(Fault::MalformedReply)
            } else {
                None
            },
        }
    }
}

/// What a reply to an exec call means: the number of substrings of a match,
/// -1 where the subject does not match, or the fault in the reply.
pub open spec fn exec_outcome(call: ExecCall, reply: ExecReply) -> Result<i32, Fault> {
    if reply.call != call {
        Err(Fault::UnexpectedReply)
    } else if reply.rc < PCRE_ERROR_NOMATCH {
        Err(Fault::EngineError(reply.rc))
    } else if reply.ovector@.len() != call.ovecsize || reply.rc * 3 > call.ovecsize {
        Err(Fault::MalformedReply)
    } else {
        Ok(reply.rc)
    }
}

/// What a reply to the study call `call` means: the study data, `None` where
/// the engine gave none or reported an error, or the fault in the reply.
pub open spec fn study_outcome(call: StudyCall, reply: StudyReply) -> Result<
    Option<pcre_extra>,
    Fault,
> {
    if reply.call != call {
        Err(Fault::UnexpectedReply)
    } else if reply.err is Some {
        Ok(None)
    } else {
        match reply.flags {
            Some(flags) => Ok(Some(pcre_extra { flags, mark: false })),
            None => Ok(None),
        }
    }
}

/// The option bits that a compile call with `options` hands to the engine.
pub fn compile_options(options: &OptionSet<CompileOption>) -> (bits: u32)
    ensures
        bits == compile_bits(options@),
{
    options.to_bitmask() | PCRE_UTF8 | PCRE_NO_UTF8_CHECK
}

/// Takes the engine's reply to the compile call for `options`.
///
/// Where the engine compiled the pattern, the result is the new handle, which
/// has no owner yet and no study data. Where it rejected the pattern, the
/// result is its message and the place at which it gave up.
pub fn pcre_compile(options: &OptionSet<CompileOption>, reply: CompileReply) -> (r: Result<
    Result<pcre, (Option<String>, i32)>,
    Fault,
>)
    ensures
        match compile_fault(options@, reply) {
            Some(fault) => r == Err::<Result<pcre, (Option<String>, i32)>, Fault>(fault),
            None => match reply.code {
                None => r == Ok::<Result<pcre, (Option<String>, i32)>, Fault>(
                    Err((reply.err, reply.erroffset)),
                ),
                Some(info) => {
                    &&& r matches Ok(Ok(code))
                    &&& code.wf()
                    &&& code.refcount() == 0
                    &&& code.extra() is None
                    &&& code.capture_count() == info.capture_count
                    &&& code.name_count() == info.name_count
                    &&& code.name_entry_size() == info.name_entry_size
                    &&& code.name_table() == info.name_table@
                },
            },
        },
{
    if reply.call.options != compile_options(options) {
        return Err(Fault::UnexpectedReply);
    }
    match reply.code {
        None => {
            if reply.erroffset < 0 {
                Err(Fault::MalformedReply)
            } else {
                Ok(Err((reply.err, reply.erroffset)))
            }
        },
        Some(info) => {
            if reply.erroffset != 0 || info.capture_count < 0 || info.capture_count
                > CAPTURE_COUNT_MAX || !directory_is_valid(
                &info.name_table,
                info.name_count,
                info.name_entry_size,
            ) {
                Err(Fault::MalformedReply)
            } else {
                Ok(
                    Ok(
                        pcre {
                            refcount: 0,
                            capture_count: info.capture_count,
                            name_count: info.name_count as usize,
                            name_entry_size: info.name_entry_size as usize,
                            name_table: info.name_table,
                            extra: None,
                        },
                    ),
                )
            }
        },
    }
}

/// The option bits that an exec call with `options` hands to the engine.
pub fn exec_options(options: &OptionSet<ExecOption>) -> (bits: u32)
    ensures
        bits == exec_bits(options@),
{
    options.to_bitmask() | PCRE_NO_UTF8_CHECK
}

/// Takes the engine's reply to the exec call `call`.
pub fn pcre_exec(call: &ExecCall, reply: &ExecReply) -> (r: Result<i32, Fault>)
    requires
        call.ovecsize >= 0,
        call.ovecsize % 3 == 0,
    ensures
        r == exec_outcome(*call, *reply),
{
    if reply.call != *call {
        Err(Fault::UnexpectedReply)
    } else if reply.rc < PCRE_ERROR_NOMATCH {
        Err(Fault::EngineError(reply.rc))
    } else if reply.ovector.len() != call.ovecsize as usize || reply.rc > call.ovecsize / 3 {
        Err(Fault::MalformedReply)
    } else {
        Ok(reply.rc)
    }
}

/// Takes the return code of a query about a pattern: a negative code is a
/// fault.
pub fn pcre_fullinfo(rc: i32) -> (r: Result<(), Fault>)
    ensures
        r == if rc < 0 {
            Err::<(), Fault>(Fault::EngineError(rc))
        } else {
            Ok::<(), Fault>(())
        },
{
    if rc < 0 {
        Err(Fault::EngineError(rc))
    } else {
        Ok(())
    }
}

/// Changes the number of owners of `code` by `adjust` and returns the new
/// number. With an `adjust` of zero it reads the number.
pub fn pcre_refcount(code: &mut pcre, adjust: i32) -> (count: i32)
    requires
        0 <= old(code).refcount() + adjust <= REFCOUNT_MAX,
    ensures
        final(code).wf(),
        final(code).refcount() == old(code).refcount() + adjust,
        final(code).same_pattern(old(code)),
        count == final(code).refcount(),
{
    proof {
        use_type_invariant(&*code);
    }
    code.refcount = code.refcount + adjust;
    code.refcount
}

/// The option bits that a study call with `options` hands to the engine.
pub fn study_options(options: &OptionSet<StudyOption>) -> (bits: u32)
    ensures
        bits == mask_of(options@),
{
    options.to_bitmask()
}

/// Takes the engine's reply to the study call `call`.
pub fn pcre_study(call: &StudyCall, reply: &StudyReply) -> (r: Result<Option<pcre_extra>, Fault>)
    ensures
        r == study_outcome(*call, *reply),
{
    if reply.call != *call {
        Err(Fault::UnexpectedReply)
    } else if reply.err.is_some() {
        Ok(None)
    } else {
        match reply.flags {
            Some(flags) => Ok(Some(pcre_extra { flags, mark: false })),
            None => Ok(None),
        }
    }
}

/// One owner gives up `code`. The last owner has to free the study data and
/// then the compiled pattern; the handle is left without study data.
pub fn pcre_release(code: &mut pcre) -> (todo: Release)
    requires
        old(code).refcount() >= 1,
    ensures
        released(old(code), final(code), todo),
{
    proof {
        use_type_invariant(&*code);
    }
    let count: i32 = pcre_refcount(code, -1);
    if count == 0 {
        let study: bool = code.extra.is_some();
        code.extra = None;
        Release::Free { study }
    } else {
        Release::Retain
    }
}

} // verus!
