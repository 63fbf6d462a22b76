use pcre::option_set::{OptionKind, OptionSet};
use pcre::options::{
    CompileOption, ExecNoStartOptimize, ExecOption, ExecPartial, ExtraOption, StudyOption,
};

#[test]
fn option_set_folds_to_the_engine_bits() {
    let mut set: OptionSet<CompileOption> = OptionSet::empty();
    assert_eq!(set.to_bitmask(), 0);
    set.add(CompileOption::Caseless);
    set.add(CompileOption::Ucp);
    assert!(set.contains(CompileOption::Caseless));
    assert!(!set.contains(CompileOption::DotAll));
    assert_eq!(set.to_bitmask(), 0x20000001);
    assert_eq!(ExecOption::ExecNotEmptyAtStart.bits(), 0x10000000);
}

#[test]
fn option_set_holds_a_flag_once() {
    let mut set: OptionSet<ExecOption> = OptionSet::empty();
    assert!(set.members().is_empty());
    set.add(ExecOption::ExecNotEol);
    set.add(ExecOption::ExecAnchored);
    set.add(ExecOption::ExecNotEol);
    assert_eq!(set.members(), vec![ExecOption::ExecAnchored, ExecOption::ExecNotEol]);
    assert_eq!(set.to_bitmask(), 0x110);
    let copy = set.clone();
    set.add(ExecOption::ExecNotEmptyAtStart);
    assert!(!copy.contains(ExecOption::ExecNotEmptyAtStart));
    assert!(set.contains(ExecOption::ExecNotEmptyAtStart));
}

#[test]
fn flags_that_share_bits_fold_together() {
    let mut set: OptionSet<CompileOption> = OptionSet::empty();
    set.add(CompileOption::NewlineCR);
    set.add(CompileOption::NewlineLF);
    assert_eq!(set.to_bitmask(), CompileOption::NewlineCRLF.bits());
    assert!(!set.contains(CompileOption::NewlineCRLF));
}

#[test]
fn compile_option_values() {
    let values: Vec<u32> = (1..=21).map(|n| CompileOption::from_uint(n).bits()).collect();
    assert_eq!(
        values,
        vec![
            0x00000001, 0x00000002, 0x00000004, 0x00000008, 0x00000010, 0x00000020, 0x00000040,
            0x00000200, 0x00001000, 0x00004000, 0x00040000, 0x00080000, 0x00100000, 0x00200000,
            0x00300000, 0x00400000, 0x00500000, 0x00800000, 0x01000000, 0x02000000, 0x20000000,
        ]
    );
    assert_eq!(CompileOption::family_size(), 21);
    assert_eq!(CompileOption::DupNames.bits(), 0x00080000);
    assert_eq!(CompileOption::Caseless.to_uint(), 1);
    assert_eq!(CompileOption::Ucp.to_uint(), 21);
}

#[test]
fn study_option_values() {
    let values: Vec<u32> = (1..=4).map(|n| StudyOption::from_uint(n).bits()).collect();
    assert_eq!(values, vec![1, 2, 4, 8]);
    assert_eq!(StudyOption::family_size(), 4);
    assert_eq!(StudyOption::StudyExtraNeeded.to_uint(), 4);
}

#[test]
fn exec_option_values() {
    let values: Vec<u32> = (1..=15).map(|n| ExecOption::from_uint(n).bits()).collect();
    assert_eq!(
        values,
        vec![
            0x00000010, 0x00000080, 0x00000100, 0x00000400, 0x00008000, 0x00100000, 0x00200000,
            0x00300000, 0x00400000, 0x00500000, 0x00800000, 0x01000000, 0x04000000, 0x08000000,
            0x10000000,
        ]
    );
    assert_eq!(ExecOption::family_size(), 15);
    assert_eq!(ExecPartial, ExecOption::ExecPartialSoft);
    assert_eq!(ExecNoStartOptimize, ExecOption::ExecNoStartOptimise);
}

#[test]
fn extra_option_values() {
    let values: Vec<u32> = (1..=7).map(|n| ExtraOption::from_uint(n).bits()).collect();
    assert_eq!(values, vec![0x01, 0x02, 0x04, 0x08, 0x10, 0x20, 0x40]);
    assert_eq!(ExtraOption::family_size(), 7);
    assert_eq!(ExtraOption::ExtraMark.to_uint(), 6);
}

#[test]
fn position_and_flag_go_back_and_forth() {
    for n in 1..=21 {
        assert_eq!(CompileOption::from_uint(n).to_uint(), n);
    }
    for n in 1..=15 {
        assert_eq!(ExecOption::from_uint(n).to_uint(), n);
    }
    for n in 1..=7 {
        assert_eq!(ExtraOption::from_uint(n).to_uint(), n);
    }
    for n in 1..=4 {
        assert_eq!(StudyOption::from_uint(n).to_uint(), n);
    }
}
