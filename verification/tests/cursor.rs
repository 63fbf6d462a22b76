use pcre::detail::{CompileReply, ExecCall, ExecReply, PatternInfo, StudyReply};
use pcre::{ExecOption, Fault, Match, MatchIterator, OptionSet, Pcre, Release};

fn pattern_with(capture_count: i32) -> (Pcre, pcre::detail::pcre) {
    let reply = CompileReply {
        call: Pcre::compile_call("p", &OptionSet::empty()).unwrap(),
        code: Some(PatternInfo {
            capture_count,
            name_count: 0,
            name_entry_size: 0,
            name_table: Vec::new(),
        }),
        err: None,
        erroffset: 0,
    };
    Pcre::compile("p", reply).unwrap().unwrap()
}

/// A reply with one match of the whole pattern from `start` to `end`.
fn found(call: ExecCall, start: i32, end: i32) -> ExecReply {
    let mut ovector = vec![-1; call.ovecsize as usize];
    ovector[0] = start;
    ovector[1] = end;
    ExecReply { call, rc: 1, ovector, mark: None }
}

fn nothing(call: ExecCall) -> ExecReply {
    ExecReply { call, rc: -1, ovector: vec![0; call.ovecsize as usize], mark: None }
}

fn span(m: &Match) -> (usize, usize) {
    (m.group_start(0), m.group_end(0))
}

#[test]
fn cursor_starts_at_the_start_of_the_subject() {
    let (re, mut code) = pattern_with(2);
    let mut options: OptionSet<ExecOption> = OptionSet::empty();
    options.add(ExecOption::ExecNotBol);
    let mut it = re.matches_with_options(&mut code, "subject", &options);
    assert_eq!(code.owners(), 2);
    assert_eq!(it.offset(), 0);
    assert!(!it.is_exhausted());
    assert_eq!(
        it.next_call(),
        Some(ExecCall { startoffset: 0, length: 7, options: 0x2080, ovecsize: 9, mark: false })
    );
    assert_eq!(it.take_scratch(), vec![0; 9]);
}

#[test]
fn cursor_goes_on_from_the_end_of_each_match() {
    let (re, mut code) = pattern_with(0);
    let mut it = re.matches(&mut code, "aXbXXc");
    let call = it.next_call().unwrap();
    let m = it.next(found(call, 1, 2)).unwrap().unwrap();
    assert_eq!(span(&m), (1, 2));
    assert_eq!(it.offset(), 2);
    let call = it.next_call().unwrap();
    assert_eq!(call.startoffset, 2);
    let m = it.next(found(call, 3, 5)).unwrap().unwrap();
    assert_eq!(span(&m), (3, 5));
    assert_eq!(it.offset(), 5);
    let call = it.next_call().unwrap();
    assert!(it.next(nothing(call)).unwrap().is_none());
    assert!(it.is_exhausted());
}

#[test]
fn exhaustion_is_final() {
    let (re, mut code) = pattern_with(0);
    let mut it = re.matches(&mut code, "abcabc");
    let call = it.next_call().unwrap();
    assert!(it.next(nothing(call)).unwrap().is_none());
    assert!(it.is_exhausted());
    assert_eq!(it.next_call(), None);
    // Even a reply that holds a match is not taken any more.
    assert!(it.next(found(call, 3, 6)).unwrap().is_none());
    assert!(it.next(found(call, 0, 3)).unwrap().is_none());
    assert!(it.is_exhausted());
    assert_eq!(it.offset(), 0);
}

#[test]
fn an_empty_match_does_not_stall_the_cursor() {
    let (re, mut code) = pattern_with(0);
    let mut it = re.matches(&mut code, "ab");
    let call = it.next_call().unwrap();
    let m = it.next(found(call, 0, 0)).unwrap().unwrap();
    assert_eq!(span(&m), (0, 0));
    assert_eq!(m.group(0), "");
    assert_eq!(it.offset(), 1);
    let call = it.next_call().unwrap();
    assert_eq!(call.startoffset, 1);
    let m = it.next(found(call, 1, 1)).unwrap().unwrap();
    assert_eq!(span(&m), (1, 1));
    assert_eq!(it.offset(), 2);
    let call = it.next_call().unwrap();
    assert_eq!(call.startoffset, 2);
    // An empty match at the end of the subject is the last one.
    let m = it.next(found(call, 2, 2)).unwrap().unwrap();
    assert_eq!(span(&m), (2, 2));
    assert!(it.is_exhausted());
    assert_eq!(it.next_call(), None);
}

#[test]
fn an_empty_match_is_passed_by_a_whole_character() {
    let subject = "a\u{e9}\u{20ac}z";
    let (re, mut code) = pattern_with(0);
    let mut it = re.matches(&mut code, subject);
    let call = it.next_call().unwrap();
    assert_eq!(call.length, 7);
    it.next(found(call, 1, 1)).unwrap().unwrap();
    // The character at 1 takes two bytes.
    assert_eq!(it.offset(), 3);
    let call = it.next_call().unwrap();
    it.next(found(call, 3, 3)).unwrap().unwrap();
    // The character at 3 takes three bytes.
    assert_eq!(it.offset(), 6);
}

#[test]
fn a_match_before_the_offset_is_a_fault() {
    let (re, mut code) = pattern_with(0);
    let mut it = re.matches(&mut code, "abcabc");
    let call = it.next_call().unwrap();
    it.next(found(call, 0, 3)).unwrap().unwrap();
    let call = it.next_call().unwrap();
    assert_eq!(it.next(found(call, 2, 4)).unwrap_err(), Fault::MalformedReply);
    assert!(it.is_exhausted());
}

#[test]
fn cursor_faults() {
    let (re, mut code) = pattern_with(0);

    let mut it = re.matches(&mut code, "abc");
    let call = it.next_call().unwrap();
    let other = ExecCall { startoffset: 1, ..call };
    assert_eq!(it.next(found(other, 1, 2)).unwrap_err(), Fault::UnexpectedReply);
    assert!(it.is_exhausted());

    let mut it = re.matches(&mut code, "abc");
    let call = it.next_call().unwrap();
    let reply = ExecReply { call, rc: -8, ovector: vec![0; 3], mark: None };
    assert_eq!(it.next(reply).unwrap_err(), Fault::EngineError(-8));
    assert!(it.is_exhausted());

    let mut it = re.matches(&mut code, "abc");
    let call = it.next_call().unwrap();
    let reply = ExecReply { call, rc: 1, ovector: vec![0, 4, 0], mark: None };
    assert_eq!(it.next(reply).unwrap_err(), Fault::MalformedReply);
    assert!(it.is_exhausted());

    let mut it = re.matches(&mut code, "abc");
    let call = it.next_call().unwrap();
    let reply = ExecReply { call, rc: 1, ovector: vec![0, 1], mark: None };
    assert_eq!(it.next(reply).unwrap_err(), Fault::MalformedReply);
}

#[test]
fn a_match_keeps_its_offsets_when_the_cursor_moves_on() {
    let (re, mut code) = pattern_with(1);
    let mut it = re.matches(&mut code, "abcabc");
    let call = it.next_call().unwrap();
    let mut buffer = it.take_scratch();
    buffer.copy_from_slice(&[0, 3, 1, 2, 7, 7]);
    let first = it.next(ExecReply { call, rc: 2, ovector: buffer, mark: None }).unwrap().unwrap();
    let call = it.next_call().unwrap();
    let mut buffer = it.take_scratch();
    assert_eq!(buffer, vec![0, 3, 1, 2, 7, 7]);
    buffer.copy_from_slice(&[3, 6, -1, -1, 9, 9]);
    let second = it.next(ExecReply { call, rc: 1, ovector: buffer, mark: None }).unwrap().unwrap();
    assert_eq!(span(&first), (0, 3));
    assert_eq!(first.group_start(1), 1);
    assert_eq!(first.group_end(1), 2);
    assert_eq!(first.string_count(), 2);
    assert_eq!(span(&second), (3, 6));
    assert!(!second.has_group(1));
    assert_eq!(second.string_count(), 1);
    assert_eq!(second.mark(), None);
}

#[test]
fn a_copied_cursor_goes_its_own_way() {
    let (re, mut code) = pattern_with(0);
    let mut it = re.matches(&mut code, "abcabcabc");
    let call = it.next_call().unwrap();
    it.next(found(call, 0, 3)).unwrap().unwrap();
    let mut copy = it.clone(&mut code);
    assert_eq!(code.owners(), 3);
    assert_eq!(copy.offset(), 3);
    assert_eq!(copy.next_call(), it.next_call());
    let call = it.next_call().unwrap();
    it.next(found(call, 3, 6)).unwrap().unwrap();
    assert_eq!(it.offset(), 6);
    assert_eq!(copy.offset(), 3);
    let call = copy.next_call().unwrap();
    assert!(copy.next(nothing(call)).unwrap().is_none());
    assert!(copy.is_exhausted());
    assert!(!it.is_exhausted());
}

#[test]
fn the_handle_is_freed_by_its_last_owner_only() {
    let (mut re, mut code) = pattern_with(0);
    assert_eq!(code.owners(), 1);
    let call = re.study_call(&code, &OptionSet::empty()).unwrap();
    assert!(re.study(&mut code, StudyReply { call, flags: Some(1), err: None }).unwrap());
    let it = re.matches(&mut code, "abc");
    let copy = it.clone(&mut code);
    assert_eq!(code.owners(), 3);
    assert_eq!(it.release(&mut code), Release::Retain);
    assert_eq!(re.release(&mut code), Release::Retain);
    assert_eq!(code.owners(), 1);
    assert!(code.study_data().is_some());
    assert_eq!(copy.release(&mut code), Release::Free { study: true });
    assert_eq!(code.owners(), 0);
    assert!(code.study_data().is_none());
}

#[test]
fn a_handle_without_study_data_is_freed_alone() {
    let (re, mut code) = pattern_with(0);
    assert_eq!(re.release(&mut code), Release::Free { study: false });
}

#[test]
fn a_pattern_with_other_owners_is_not_studied() {
    let (mut re, mut code) = pattern_with(0);
    let it: MatchIterator = re.matches(&mut code, "abc");
    assert_eq!(re.study_call(&code, &OptionSet::empty()), None);
    let call = pcre::detail::StudyCall { options: 0, free_previous: false };
    let reply = StudyReply { call, flags: Some(1), err: None };
    assert_eq!(re.study(&mut code, reply), Ok(false));
    assert!(code.study_data().is_none());
    assert_eq!(it.release(&mut code), Release::Retain);
    let call = re.study_call(&code, &OptionSet::empty()).unwrap();
    assert_eq!(re.study(&mut code, StudyReply { call, flags: Some(1), err: None }), Ok(true));
}

#[test]
fn the_next_place_between_characters() {
    let subject = "a\u{e9}\u{20ac}z";
    assert_eq!(pcre::cursor::boundary_from(subject, 0), 0);
    assert_eq!(pcre::cursor::boundary_from(subject, 1), 1);
    assert_eq!(pcre::cursor::boundary_from(subject, 2), 3);
    assert_eq!(pcre::cursor::boundary_from(subject, 4), 6);
    assert_eq!(pcre::cursor::boundary_from(subject, 5), 6);
    assert_eq!(pcre::cursor::boundary_from(subject, 7), 7);
}
