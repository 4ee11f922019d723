use stepper_synth::mod_matrix::{
    EnvParam, LfoParam, LowPass, LowPassParam, ModMatrixDest, ModMatrixSrc, OscParam,
};
use stepper_synth::mod_names::{
    display_dest, display_src, is_volume_name, names_volume, parse_mod_src, push_decimal,
    str_to_mod_src, SrcError,
};

#[test]
fn decimal_digits_of_numbers() {
    for (n, text) in [
        (0u128, "0"),
        (7, "7"),
        (10, "10"),
        (909, "909"),
        (18_446_744_073_709_551_615, "18446744073709551615"),
        (u128::MAX, "340282366920938463463374607431768211455"),
    ] {
        let mut out = String::from("n=");
        push_decimal(&mut out, n);
        assert_eq!(out, format!("n={text}"));
    }
}

#[test]
fn sources_are_shown_by_name() {
    assert_eq!(display_src(ModMatrixSrc::Gate), "Gate");
    assert_eq!(display_src(ModMatrixSrc::Macro1), "Macro-1");
    assert_eq!(display_src(ModMatrixSrc::Macro2), "Macro-2");
    assert_eq!(display_src(ModMatrixSrc::Macro3), "Macro-3");
    assert_eq!(display_src(ModMatrixSrc::Macro4), "Macro-4");
    assert_eq!(display_src(ModMatrixSrc::Velocity), "Vel");
    assert_eq!(display_src(ModMatrixSrc::ModWheel), "Mod-Whl");
    assert_eq!(display_src(ModMatrixSrc::PitchWheel), "Pitch-Whl");
    assert_eq!(display_src(ModMatrixSrc::Env(0)), "Env-0");
    assert_eq!(display_src(ModMatrixSrc::Lfo(12)), "LFO-12");
}

#[test]
fn destinations_are_shown_by_name() {
    assert_eq!(display_dest(ModMatrixDest::SynthVolume), "Vol.");
    assert_eq!(display_dest(ModMatrixDest::ModMatrixEntryModAmt(254)), "Mod-Entry 254");
    assert_eq!(
        display_dest(ModMatrixDest::Osc { osc: 0, param: OscParam::Level }),
        "OSC 1 Vol."
    );
    assert_eq!(
        display_dest(ModMatrixDest::Osc { osc: usize::MAX, param: OscParam::Tune }),
        format!("OSC {} Tune", usize::MAX as u128 + 1)
    );
    assert_eq!(
        display_dest(ModMatrixDest::LowPass { low_pass: LowPass::LP1, param: LowPassParam::Cutoff }),
        "LowP 1 CutOff"
    );
    assert_eq!(
        display_dest(ModMatrixDest::LowPass { low_pass: LowPass::LP2, param: LowPassParam::Res }),
        "LowP 2 Res"
    );
    assert_eq!(
        display_dest(ModMatrixDest::LowPass { low_pass: LowPass::LP2, param: LowPassParam::Mix }),
        "LowP 2 Mix"
    );
    assert_eq!(display_dest(ModMatrixDest::Env { env: 3, param: EnvParam::Atk }), "Env 3 Atk");
    assert_eq!(display_dest(ModMatrixDest::Env { env: 0, param: EnvParam::Dcy }), "Env 0 Dcy");
    assert_eq!(display_dest(ModMatrixDest::Env { env: 1, param: EnvParam::Sus }), "Env 1 Sus");
    assert_eq!(display_dest(ModMatrixDest::Env { env: 2, param: EnvParam::Rel }), "Env 2 Rel");
    assert_eq!(display_dest(ModMatrixDest::Lfo { lfo: 2, param: LfoParam::Speed }), "LFO 2 Speed");
}

#[test]
fn plain_source_names_are_read() {
    assert_eq!(parse_mod_src(b"velocity"), Ok(ModMatrixSrc::Velocity));
    assert_eq!(parse_mod_src(b"vel"), Ok(ModMatrixSrc::Velocity));
    assert_eq!(parse_mod_src(b"gate"), Ok(ModMatrixSrc::Gate));
    assert_eq!(parse_mod_src(b"mod-wheel"), Ok(ModMatrixSrc::ModWheel));
    assert_eq!(parse_mod_src(b"mod-whl"), Ok(ModMatrixSrc::ModWheel));
    assert_eq!(parse_mod_src(b"pitch-wheel"), Ok(ModMatrixSrc::PitchWheel));
    assert_eq!(parse_mod_src(b"pitch-whl"), Ok(ModMatrixSrc::PitchWheel));
    for (n, src) in [
        ("1", ModMatrixSrc::Macro1),
        ("2", ModMatrixSrc::Macro2),
        ("3", ModMatrixSrc::Macro3),
        ("4", ModMatrixSrc::Macro4),
    ] {
        for form in ["macro-", "macro", "m-", "m"] {
            assert_eq!(parse_mod_src(format!("{form}{n}").as_bytes()), Ok(src));
        }
    }
}

#[test]
fn numbered_source_names_count_from_one() {
    assert_eq!(parse_mod_src(b"env-1"), Ok(ModMatrixSrc::Env(0)));
    assert_eq!(parse_mod_src(b"env-4"), Ok(ModMatrixSrc::Env(3)));
    assert_eq!(parse_mod_src(b"lfo-12"), Ok(ModMatrixSrc::Lfo(11)));
    assert_eq!(parse_mod_src(b"lfo-007"), Ok(ModMatrixSrc::Lfo(6)));
    assert_eq!(parse_mod_src(b"env-+3"), Ok(ModMatrixSrc::Env(2)));
    assert_eq!(parse_mod_src(b"env-2-9"), Ok(ModMatrixSrc::Env(1)));
    assert_eq!(parse_mod_src(b"env-2-x"), Ok(ModMatrixSrc::Env(1)));
    let most = format!("lfo-{}", usize::MAX);
    assert_eq!(parse_mod_src(most.as_bytes()), Ok(ModMatrixSrc::Lfo(usize::MAX - 1)));
}

#[test]
fn bad_source_names_are_refused() {
    assert_eq!(parse_mod_src(b""), Err(SrcError::Unknown));
    assert_eq!(parse_mod_src(b"velo"), Err(SrcError::Unknown));
    assert_eq!(parse_mod_src(b"Vel"), Err(SrcError::Unknown));
    assert_eq!(parse_mod_src(b" vel"), Err(SrcError::Unknown));
    assert_eq!(parse_mod_src(b"env"), Err(SrcError::Unknown));
    assert_eq!(parse_mod_src(b"macro-5"), Err(SrcError::Unknown));
    assert_eq!(parse_mod_src(b"env-"), Err(SrcError::Number));
    assert_eq!(parse_mod_src(b"env--1"), Err(SrcError::Number));
    assert_eq!(parse_mod_src(b"env-+"), Err(SrcError::Number));
    assert_eq!(parse_mod_src(b"env-1a"), Err(SrcError::Number));
    assert_eq!(parse_mod_src(b"env- 1"), Err(SrcError::Number));
    assert_eq!(parse_mod_src(b"lfo-x"), Err(SrcError::Number));
    assert_eq!(parse_mod_src(b"lfo-0"), Err(SrcError::Zero));
    assert_eq!(parse_mod_src(b"env-000"), Err(SrcError::Zero));
    let too_big = format!("lfo-{}", usize::MAX as u128 + 1);
    assert_eq!(parse_mod_src(too_big.as_bytes()), Err(SrcError::Number));
    assert_eq!(parse_mod_src(b"lfo-99999999999999999999999999999999999"), Err(SrcError::Number));
}

#[test]
fn typed_source_names_are_trimmed_and_lowered() {
    assert_eq!(str_to_mod_src("  VEL "), Ok(ModMatrixSrc::Velocity));
    assert_eq!(str_to_mod_src("\tEnv-2\n"), Ok(ModMatrixSrc::Env(1)));
    assert_eq!(str_to_mod_src("Pitch-Wheel"), Ok(ModMatrixSrc::PitchWheel));
    assert_eq!(str_to_mod_src("\u{2003}Gate\u{a0}"), Ok(ModMatrixSrc::Gate));
    assert_eq!(str_to_mod_src("M1"), Ok(ModMatrixSrc::Macro1));
    assert_eq!(str_to_mod_src("ve l"), Err(SrcError::Unknown));
    assert_eq!(str_to_mod_src("LFO-0"), Err(SrcError::Zero));
    assert_eq!(str_to_mod_src("\u{212a}"), Err(SrcError::Unknown));
}

#[test]
fn volume_names_begin_with_vol() {
    assert!(is_volume_name(b"vol"));
    assert!(is_volume_name(b"volume"));
    assert!(is_volume_name(b"vol."));
    assert!(!is_volume_name(b"vo"));
    assert!(!is_volume_name(b"Vol"));
    assert!(!is_volume_name(b" vol"));
    assert!(names_volume("Vol."));
    assert!(names_volume("VOLUME"));
    assert!(!names_volume(" vol"));
    assert!(!names_volume("SynthVolume"));
}
