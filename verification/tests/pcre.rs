use pcre::detail::{CompileCall, CompileReply, ExecCall, ExecReply, PatternInfo, StudyReply};
use pcre::{
    CompileOption, ExecOption, ExtraOption, Match, MatchIterator, OptionSet, Pcre, Release,
    StudyOption,
};

/// The reply of an engine that accepts the pattern.
fn accepted(pattern: &str, options: &OptionSet<CompileOption>, capture_count: i32) -> CompileReply {
    CompileReply {
        call: Pcre::compile_call(pattern, options).unwrap(),
        code: Some(PatternInfo {
            capture_count,
            name_count: 0,
            name_entry_size: 0,
            name_table: Vec::new(),
        }),
        err: None,
        erroffset: 0,
    }
}

/// The reply of an engine that rejects the pattern at `erroffset`.
fn rejected(pattern: &str, message: &str, erroffset: i32) -> CompileReply {
    CompileReply {
        call: Pcre::compile_call(pattern, &OptionSet::empty()).unwrap(),
        code: None,
        err: Some(message.to_string()),
        erroffset,
    }
}

fn compiled(pattern: &str, capture_count: i32) -> (Pcre, pcre::detail::pcre) {
    Pcre::compile(pattern, accepted(pattern, &OptionSet::empty(), capture_count))
        .unwrap()
        .unwrap()
}

/// What an engine answers that looks for the text `needle`.
fn search(needle: &str, subject: &str, call: ExecCall, mark: Option<&str>) -> ExecReply {
    let mut ovector = vec![0; call.ovecsize as usize];
    let from = call.startoffset as usize;
    match subject[from..].find(needle) {
        Some(at) => {
            ovector[0] = (from + at) as i32;
            ovector[1] = (from + at + needle.len()) as i32;
            for slot in ovector.iter_mut().take(call.ovecsize as usize / 3 * 2).skip(2) {
                *slot = -1;
            }
            ExecReply { call, rc: 1, ovector, mark: mark.map(|m| m.to_string()) }
        }
        None => ExecReply { call, rc: -1, ovector, mark: None },
    }
}

fn next_of<'a>(it: &mut MatchIterator<'a>, needle: &str, subject: &str) -> Option<Match<'a>> {
    match it.next_call() {
        None => None,
        Some(call) => it.next(search(needle, subject, call, None)).unwrap(),
    }
}

#[test]
fn test_compile_nul() {
    // Nul bytes are not allowed in the pattern string.
    let reply = CompileReply {
        call: CompileCall { options: 0x2800 },
        code: None,
        err: None,
        erroffset: 0,
    };
    assert!(Pcre::compile_call("\0abc", &OptionSet::empty()).is_err());
    let err = Pcre::compile("\0abc", reply).unwrap().unwrap_err();
    assert_eq!(err.offset(), 0);
    assert_eq!(err.message(), None);
}

#[test]
fn test_compile_bad_pattern() {
    let reply = rejected("[", "missing terminating ] for character class", 1);
    let err = Pcre::compile("[", reply).unwrap().unwrap_err();
    assert_eq!(err.offset(), 1);
}

#[test]
fn test_compile_bad_pattern2() {
    let reply = rejected("[", "missing terminating ] for character class", 1);
    assert!(Pcre::compile("[", reply).unwrap().is_err());
}

#[test]
fn test_compile_capture_count() {
    let (re, _code) = compiled("(?:abc)(def)", 1);
    assert_eq!(re.capture_count(), 1);
}

#[test]
fn test_exec_basic() {
    let (mut re, code) = compiled("^...$", 0);
    assert_eq!(re.capture_count(), 0);
    let call = re.exec_call(&code, "abc", 0, &OptionSet::empty());
    let reply = ExecReply { call, rc: 1, ovector: vec![0, 3, 0], mark: None };
    let m = re.exec(&code, "abc", reply).unwrap().unwrap();
    assert_eq!(m.group(0), "abc");
}

#[test]
fn test_exec_no_match() {
    let (mut re, code) = compiled("abc", 0);
    let call = re.exec_call(&code, "def", 0, &OptionSet::empty());
    assert!(re.exec(&code, "def", search("abc", "def", call, None)).unwrap().is_none());
}

#[test]
fn test_exec_nul_byte() {
    // Nul bytes *are* allowed in subject strings, however.
    let (mut re, code) = compiled("abc\\0def", 0);
    let call = re.exec_call(&code, "abc\0def", 0, &OptionSet::empty());
    let reply = search("abc\0def", "abc\0def", call, None);
    let m = re.exec(&code, "abc\0def", reply).unwrap().unwrap();
    assert_eq!(m.group(0), "abc\0def");
}

#[test]
fn test_exec_from_basic() {
    let (mut re, code) = compiled("abc", 0);
    let subject = "abcabc";
    let call = re.exec_call(&code, subject, 1, &OptionSet::empty());
    assert_eq!(call.startoffset, 1);
    let m1 = re.exec_from(&code, subject, 1, search("abc", subject, call, None)).unwrap().unwrap();
    assert_eq!(m1.group_start(0), 3);
    assert_eq!(m1.group_end(0), 6);
    assert_eq!(m1.group_len(0), 3);
    let call = re.exec_call(&code, subject, 0, &OptionSet::empty());
    let m2 = re.exec(&code, subject, search("abc", subject, call, None)).unwrap().unwrap();
    assert_eq!(m2.group_start(0), 0);
}

#[test]
fn test_study_basic() {
    let (mut re, mut code) = compiled("abc", 0);
    let call = re.study_call(&code, &OptionSet::empty()).unwrap();
    assert!(!call.free_previous);
    let mut study_res = re.study(&mut code, StudyReply { call, flags: Some(1), err: None }).unwrap();
    assert!(study_res);
    // Study the pattern two more times: each time the study data of the time
    // before is to be freed.
    let call = re.study_call(&code, &OptionSet::empty()).unwrap();
    assert!(call.free_previous);
    study_res = re.study(&mut code, StudyReply { call, flags: Some(1), err: None }).unwrap();
    assert!(study_res);
    let call = re.study_call(&code, &OptionSet::empty()).unwrap();
    assert!(call.free_previous);
    study_res = re.study(&mut code, StudyReply { call, flags: Some(1), err: None }).unwrap();
    assert!(study_res);
}

#[test]
fn test_matches_basic() {
    let subject = "\0abc1111abcabc___ababc+a";
    let mut code;
    let mut it = {
        let (re, handle) = compiled("abc", 0);
        code = handle;
        let it = re.matches(&mut code, subject);
        // The cursor keeps its share of the handle when the pattern is given up.
        assert_eq!(re.release(&mut code), Release::Retain);
        it
    };

    let mut opt_m = next_of(&mut it, "abc", subject);
    assert!(opt_m.is_some());
    let mut m = opt_m.unwrap();
    assert_eq!(m.group_start(0), 1);
    assert_eq!(m.group_end(0), 4);

    let opt_m2 = next_of(&mut it, "abc", subject);
    assert!(opt_m2.is_some());
    let m2 = opt_m2.unwrap();
    assert_eq!(m2.group_start(0), 8);
    assert_eq!(m2.group_end(0), 11);
    // Getting the next match has not changed the first match.
    assert_eq!(m.group_start(0), 1);
    assert_eq!(m.group_end(0), 4);

    opt_m = next_of(&mut it, "abc", subject);
    assert!(opt_m.is_some());
    m = opt_m.unwrap();
    assert_eq!(m.group_start(0), 11);
    assert_eq!(m.group_end(0), 14);

    opt_m = next_of(&mut it, "abc", subject);
    assert!(opt_m.is_some());
    m = opt_m.unwrap();
    assert_eq!(m.group_start(0), 19);
    assert_eq!(m.group_end(0), 22);

    opt_m = next_of(&mut it, "abc", subject);
    assert!(opt_m.is_none());

    assert_eq!(it.release(&mut code), Release::Free { study: false });
}

#[test]
fn test_extra_mark() {
    let pattern = "X(*MARK:A)Y|X(*MARK:B)Z";
    let subject1 = "XY";
    let subject2 = "XZ";

    let mut compile_options: OptionSet<CompileOption> = OptionSet::empty();
    compile_options.add(CompileOption::Extra);

    let reply = accepted(pattern, &compile_options, 0);
    assert_eq!(reply.call.options, 0x2840);
    let (mut re, mut code) =
        Pcre::compile_with_options(pattern, &compile_options, reply).unwrap().unwrap();

    // Before anything else the pattern has no mark.
    assert_eq!(re.get_mark(), None);

    let mut study_options: OptionSet<StudyOption> = OptionSet::empty();
    study_options.add(StudyOption::StudyJitCompile);
    let call = re.study_call(&code, &study_options).unwrap();
    assert_eq!(call.options, 1);
    let study = re
        .study_with_options(&mut code, &study_options, StudyReply { call, flags: Some(0x41), err: None })
        .unwrap();
    assert!(study);

    // After studying there is still no mark: the option has to be set in the
    // study data, and a match attempt has to be made.
    assert_eq!(re.get_mark(), None);

    let mut extra_options: OptionSet<ExtraOption> = OptionSet::empty();
    extra_options.add(ExtraOption::ExtraMark);
    let extra = re.set_extra_options(&mut code, &extra_options);
    assert!(extra);
    assert_eq!(code.study_data().unwrap().flags, 0x61);
    assert!(code.study_data().unwrap().mark);

    // No match attempt was made yet.
    assert_eq!(re.get_mark(), None);

    let call = re.exec_call(&code, subject1, 0, &OptionSet::empty());
    assert!(call.mark);
    let opt_m1 = re.exec(&code, subject1, search("XY", subject1, call, Some("A"))).unwrap();
    assert!(opt_m1.is_some());

    let m1 = opt_m1.unwrap();
    assert_eq!(m1.group(0), "XY");
    assert_eq!(m1.mark(), Some("A".to_string()));

    let mark1 = re.get_mark();
    assert!(mark1.is_some());
    assert_eq!(mark1.unwrap(), "A".to_string());

    let call = re.exec_call(&code, subject2, 0, &OptionSet::empty());
    let opt_m2 = re.exec(&code, subject2, search("XZ", subject2, call, Some("B"))).unwrap();
    assert!(opt_m2.is_some());

    let m2 = opt_m2.unwrap();
    assert_eq!(m2.group(0), "XZ");

    assert_eq!(re.get_mark().unwrap(), "B".to_string());
}

#[test]
fn exec_options_reach_the_engine() {
    let (re, code) = compiled("abc", 0);
    let mut options: OptionSet<ExecOption> = OptionSet::empty();
    options.add(ExecOption::ExecAnchored);
    options.add(ExecOption::ExecNotEmpty);
    let call = re.exec_call(&code, "abcabc", 2, &options);
    assert_eq!(
        call,
        ExecCall { startoffset: 2, length: 6, options: 0x2410, ovecsize: 3, mark: false }
    );
}
