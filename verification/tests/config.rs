use inkwellkit::{usize_len, CompilerConfig, EmitType, OptLv, PrintTy, TargetType, VerboseLv};
use std::path::PathBuf;

#[test]
fn optimisation_levels() {
    assert_eq!(OptLv::value_variants(), vec![OptLv::Debug, OptLv::Opt1, OptLv::Opt2, OptLv::Opt3]);
    assert_eq!(OptLv::Debug.to_possible_value(), Some("0"));
    assert_eq!(OptLv::Opt1.to_possible_value(), Some("1"));
    assert_eq!(OptLv::Opt2.to_possible_value(), Some("2"));
    assert_eq!(OptLv::Opt3.to_possible_value(), Some("3"));
    assert!(OptLv::Debug < OptLv::Opt1 && OptLv::Opt2 < OptLv::Opt3);
    assert_eq!(OptLv::Debug.into(), inkwell::OptimizationLevel::None);
    assert_eq!(OptLv::Opt1.into(), inkwell::OptimizationLevel::Less);
    assert_eq!(OptLv::Opt2.into(), inkwell::OptimizationLevel::Default);
    assert_eq!(OptLv::Opt3.into(), inkwell::OptimizationLevel::Aggressive);
}

#[test]
fn kinds_of_target() {
    assert_eq!(
        TargetType::value_variants(),
        vec![TargetType::Bin, TargetType::ReLoc, TargetType::DyLib]
    );
    assert_eq!(TargetType::Bin.to_possible_value(), Some("bin"));
    assert_eq!(TargetType::ReLoc.to_possible_value(), Some("lib"));
    assert_eq!(TargetType::DyLib.to_possible_value(), Some("dylib"));
    assert_eq!(TargetType::default(), TargetType::Bin);
}

#[test]
fn kinds_of_output() {
    assert_eq!(EmitType::value_variants(), vec![EmitType::LLVMIR, EmitType::Asm, EmitType::Obj]);
    assert_eq!(EmitType::LLVMIR.to_possible_value(), Some("llvm-ir"));
    assert_eq!(EmitType::Asm.to_possible_value(), Some("asm"));
    assert_eq!(EmitType::Obj.to_possible_value(), Some("obj"));
    assert_eq!(EmitType::default(), EmitType::Obj);
}

#[test]
fn levels_of_verbosity() {
    assert_eq!(
        VerboseLv::value_variants(),
        vec![VerboseLv::V1, VerboseLv::V2, VerboseLv::V3]
    );
    assert_eq!(VerboseLv::V1.to_possible_value(), Some("v1"));
    assert_eq!(VerboseLv::V2.to_possible_value(), Some("v2"));
    assert_eq!(VerboseLv::V3.to_possible_value(), Some("v3"));
    assert_eq!(VerboseLv::from(0), VerboseLv::V1);
    assert_eq!(VerboseLv::from(1), VerboseLv::V1);
    assert_eq!(VerboseLv::from(2), VerboseLv::V2);
    assert_eq!(VerboseLv::from(3), VerboseLv::V1);
    assert_eq!(VerboseLv::from(usize::MAX), VerboseLv::V1);
}

#[test]
fn the_path_of_a_print_target() {
    assert_eq!(PrintTy::StdErr.get_path(), None);
    let file = PrintTy::File(PathBuf::from("out/log.txt"));
    assert_eq!(file.get_path(), Some(PathBuf::from("out/log.txt")));
    assert_eq!(file, PrintTy::File(PathBuf::from("out/log.txt")));
}

#[test]
fn the_platform_word_in_bytes() {
    assert_eq!(usize_len(), std::mem::size_of::<usize>());
    assert_eq!(usize_len() * 8, usize::BITS as usize);
}

#[test]
fn a_configuration_holds_its_parts() {
    let config = CompilerConfig {
        optlv: OptLv::Opt2,
        target_type: TargetType::default(),
        emit_type: EmitType::default(),
        print_type: PrintTy::StdErr,
    };
    assert_eq!(config.optlv, OptLv::Opt2);
    assert_eq!(config.target_type, TargetType::Bin);
    assert_eq!(config.emit_type, EmitType::Obj);
    assert_eq!(config.print_type.get_path(), None);
}
