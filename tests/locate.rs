use killmyargv::{
    addr, check_guess, comp_argv, from_stack_walking, ArgvLocation, EnvError, LocateConfig,
    LocateStep,
};

fn config(compute_argv: bool, stack_walking: bool, force_walking: bool) -> LocateConfig {
    LocateConfig { compute_argv, stack_walking, force_walking, word_bytes: 8 }
}

#[test]
fn native_argv_is_taken() {
    match addr(config(false, false, false), 2, 0x1000, 0x2000) {
        LocateStep::Done(Ok(loc)) => assert_eq!(loc, ArgvLocation { count: 2, ptr: 0x1000 }),
        other => panic!("{other:?}"),
    }
}

#[test]
fn null_native_argv_without_fallback_fails() {
    assert!(matches!(
        addr(config(false, false, false), 0, 0, 0),
        LocateStep::Done(Err(EnvError::InvalidArgvPointer))
    ));
    assert!(matches!(
        addr(config(false, false, false), 1, 0x1000, 0),
        LocateStep::Done(Err(EnvError::InvalidArgvPointer))
    ));
}

#[test]
fn null_native_argv_with_fallback_reads_environ() {
    assert!(matches!(addr(config(true, false, false), 0, 0, 0), LocateStep::ReadEnviron));
    assert!(matches!(addr(config(false, true, false), 0, 0x1000, 0), LocateStep::ReadEnviron));
}

#[test]
fn computed_argv_is_below_environ() {
    match comp_argv(config(true, false, false), 0x1000, 2) {
        LocateStep::CheckGuess { guess, argc } => {
            assert_eq!(guess, 0x1000 - 3 * 8);
            assert_eq!(argc, 2);
        }
        other => panic!("{other:?}"),
    }
}

#[test]
fn computed_argv_failures() {
    assert!(matches!(
        comp_argv(config(true, true, false), 0, 2),
        LocateStep::Done(Err(EnvError::FailedToGetArgvPointer))
    ));
    assert!(matches!(
        comp_argv(config(true, false, false), 16, 2),
        LocateStep::Done(Err(EnvError::InvalidArgvPointer))
    ));
    assert!(matches!(
        comp_argv(config(true, false, false), 24, 2),
        LocateStep::Done(Err(EnvError::InvalidArgvPointer))
    ));
    assert!(matches!(
        comp_argv(config(true, false, false), 0x1000, 0),
        LocateStep::Done(Err(EnvError::FailedToGetArgvPointer))
    ));
}

#[test]
fn stack_walking_is_chosen() {
    assert!(matches!(
        comp_argv(config(true, true, true), 0x1000, 2),
        LocateStep::WalkStack { environ: 0x1000 }
    ));
    assert!(matches!(
        comp_argv(config(true, true, false), 0x1000, 0),
        LocateStep::WalkStack { environ: 0x1000 }
    ));
}

#[test]
fn guess_is_checked_against_first_argument() {
    let prog = b"prog".to_vec();
    assert_eq!(
        check_guess(0x800, 2, 0x900, &prog, &prog),
        Ok(ArgvLocation { count: 2, ptr: 0x800 })
    );
    assert_eq!(
        check_guess(0x800, 2, 0x900, &b"other".to_vec(), &prog),
        Err(EnvError::InvalidArgvPointer)
    );
    assert_eq!(check_guess(0x800, 2, 0, &prog, &prog), Err(EnvError::InvalidArgvPointer));
}

#[test]
fn stack_walk_finds_argc() {
    // Below environ: argv's null terminator, argv[1], argv[0], then argc == 2.
    let words = vec![7, 5, 2, 9];
    assert_eq!(
        from_stack_walking(0x1000, &words, 8),
        Ok(ArgvLocation { count: 2, ptr: 0x1000 - 3 * 8 })
    );
    assert_eq!(from_stack_walking(0x1000, &vec![0], 8), Ok(ArgvLocation { count: 0, ptr: 0x1000 - 8 }));
}

#[test]
fn stack_walk_without_match_fails() {
    assert_eq!(from_stack_walking(0x1000, &vec![5, 5, 5], 8), Err(EnvError::FailedToGetArgvPointer));
    assert_eq!(from_stack_walking(8, &vec![5, 1], 8), Err(EnvError::FailedToGetArgvPointer));
}
