use vstd::prelude::*;

use crate::error::EnvError;

verus! {

/// Which fallbacks the locator may use when the argument vector captured at
/// start-up is unusable, and the size of a pointer in bytes.
#[derive(Debug, Clone, Copy)]
pub struct LocateConfig {
    /// Compute the argument array from the environment pointer.
    pub compute_argv: bool,
    /// Walk the start-up stack below the environment pointer when computing is
    /// not possible.
    pub stack_walking: bool,
    /// Walk the stack without trying to compute first.
    pub force_walking: bool,
    pub word_bytes: usize,
}

/// Where the argument vector is: its element count and the address of its
/// pointer array.
#[derive(Debug, Clone, Copy, PartialEq, Eq, Structural)]
pub struct ArgvLocation {
    pub count: usize,
    pub ptr: usize,
}

/// What the locator needs read next, or what it found.
#[derive(Debug, Clone, Copy)]
pub enum LocateStep {
    /// Read the environment pointer and the standard library's argument count,
    /// then call [`comp_argv`].
    ReadEnviron,
    /// Read the first slot of the array guessed at `guess` and the string it
    /// points to, then call [`check_guess`].
    CheckGuess { guess: usize, argc: usize },
    /// Read the `int`s at `environ - (i + 2)` words for `i = 0, 1, ...`, then call
    /// [`from_stack_walking`].
    WalkStack { environ: usize },
    /// The search is over.
    Done(Result<ArgvLocation, EnvError>),
}

/// Any fallback is enabled.
pub open spec fn has_fallback(config: LocateConfig) -> bool {
    config.compute_argv || config.stack_walking || config.force_walking
}

/// The address `n + 1` words below `environ`, where there is one.
pub open spec fn address_below(environ: nat, n: nat, word_bytes: nat) -> Option<usize> {
    if (n + 1) * word_bytes <= environ {
        Some((environ - (n + 1) * word_bytes) as usize)
    } else {
        None
    }
}

fn words_below(environ: usize, n: usize, word_bytes: usize) -> (r: Option<usize>)
    ensures
        r == address_below(environ as nat, n as nat, word_bytes as nat),
{
    if word_bytes == 0 {
        assert((n + 1) * word_bytes == 0);
        return Some(environ);
    }
    match n.checked_add(1) {
        None => {
            assert((n + 1) * word_bytes > environ) by (nonlinear_arith)
                requires
                    n + 1 > usize::MAX,
                    word_bytes >= 1,
                    environ <= usize::MAX,
            ;
            None
        },
        Some(m) => match m.checked_mul(word_bytes) {
            None => None,
            Some(p) => if p <= environ {
                Some(environ - p)
            } else {
                None
            },
        },
    }
}

/// First strategy: the argument count and array captured at start-up, with the
/// first slot of that array (0 where the array is null). They are taken when
/// both the array and its first slot are non-null; otherwise the locator goes on
/// to the environment pointer where a fallback is enabled, and fails where none is.
pub fn addr(config: LocateConfig, argc: usize, argv: usize, first: usize) -> (r: LocateStep)
    ensures
        argv != 0 && first != 0 ==> r == LocateStep::Done(
            Ok(ArgvLocation { count: argc, ptr: argv }),
        ),
        !(argv != 0 && first != 0) && has_fallback(config) ==> r == LocateStep::ReadEnviron,
        !(argv != 0 && first != 0) && !has_fallback(config) ==> r == LocateStep::Done(
            Err(EnvError::InvalidArgvPointer),
        ),
{
    if argv != 0 && first != 0 {
        LocateStep::Done(Ok(ArgvLocation { count: argc, ptr: argv }))
    } else if config.compute_argv || config.stack_walking || config.force_walking {
        LocateStep::ReadEnviron
    } else {
        LocateStep::Done(Err(EnvError::InvalidArgvPointer))
    }
}

/// The step that follows reading the environment pointer (0 where it is null)
/// and the standard library's argument count.
pub open spec fn comp_argv_spec(config: LocateConfig, environ: usize, std_argc: usize) -> LocateStep {
    if environ == 0 {
        LocateStep::Done(Err(EnvError::FailedToGetArgvPointer))
    } else if config.force_walking {
        LocateStep::WalkStack { environ }
    } else if config.compute_argv && std_argc > 0 {
        match address_below(environ as nat, std_argc as nat, config.word_bytes as nat) {
            Some(guess) => if guess != 0 {
                LocateStep::CheckGuess { guess, argc: std_argc }
            } else {
                LocateStep::Done(Err(EnvError::InvalidArgvPointer))
            },
            None => LocateStep::Done(Err(EnvError::InvalidArgvPointer)),
        }
    } else if config.stack_walking {
        LocateStep::WalkStack { environ }
    } else {
        LocateStep::Done(Err(EnvError::FailedToGetArgvPointer))
    }
}

/// Second strategy: on the usual process layout the environment array follows
/// the argument array and its null terminator, so the argument array starts
/// `argc + 1` words below the environment pointer. Without an environment
/// pointer there is nothing to compute from; where computing is not possible
/// (or walking is forced) the stack is walked, if enabled.
pub fn comp_argv(config: LocateConfig, environ: usize, std_argc: usize) -> (r: LocateStep)
    ensures
        r == comp_argv_spec(config, environ, std_argc),
{
    if environ == 0 {
        return LocateStep::Done(Err(EnvError::FailedToGetArgvPointer));
    }
    if config.force_walking {
        return LocateStep::WalkStack { environ };
    }
    if config.compute_argv && std_argc > 0 {
        match words_below(environ, std_argc, config.word_bytes) {
            Some(guess) => if guess != 0 {
                LocateStep::CheckGuess { guess, argc: std_argc }
            } else {
                LocateStep::Done(Err(EnvError::InvalidArgvPointer))
            },
            None => LocateStep::Done(Err(EnvError::InvalidArgvPointer)),
        }
    } else if config.stack_walking {
        LocateStep::WalkStack { environ }
    } else {
        LocateStep::Done(Err(EnvError::FailedToGetArgvPointer))
    }
}

/// Whether two byte strings are equal.
fn bytes_equal(a: &Vec<u8>, b: &Vec<u8>) -> (r: bool)
    ensures
        r == (a@ == b@),
{
    if a.len() != b.len() {
        return false;
    }
    let mut i: usize = 0;
    while i < a.len()
        invariant
            a@.len() == b@.len(),
            i <= a@.len(),
            forall|j: int| 0 <= j < i ==> a@[j] == b@[j],
        decreases a@.len() - i,
    {
        if a[i] != b[i] {
            return false;
        }
        i = i + 1;
    }
    assert(a@ =~= b@);
    true
}

/// Validates a computed argument array: its first slot `first` (0 where null)
/// must point at a string equal to the standard library's first argument.
pub fn check_guess(
    guess: usize,
    argc: usize,
    first: usize,
    first_string: &Vec<u8>,
    std_first: &Vec<u8>,
) -> (r: Result<ArgvLocation, EnvError>)
    ensures
        first != 0 && first_string@ == std_first@ ==> r == Ok::<ArgvLocation, EnvError>(
            ArgvLocation { count: argc, ptr: guess },
        ),
        !(first != 0 && first_string@ == std_first@) ==> r == Err::<ArgvLocation, EnvError>(
            EnvError::InvalidArgvPointer,
        ),
{
    if first != 0 && bytes_equal(first_string, std_first) {
        Ok(ArgvLocation { count: argc, ptr: guess })
    } else {
        Err(EnvError::InvalidArgvPointer)
    }
}

/// `i` is the first index at which the word read `i + 2` words below the
/// environment pointer equals `i`.
pub open spec fn is_first_hit(words: Seq<i32>, i: int) -> bool {
    &&& 0 <= i < words.len()
    &&& words[i] as int == i
    &&& forall|j: int| 0 <= j < i ==> words[j] as int != j
}

/// Last strategy: on the start-up stack, below the environment array lie the
/// argument array's null terminator, the `argc` argument pointers and `argc`
/// itself. Walking down from the environment pointer, `argc`
/// is the first `i` for which the word `i + 2` below holds `i`; `words[i]` is
/// that word read as an `int`. The array starts `argc + 1` words below.
pub fn from_stack_walking(environ: usize, words: &Vec<i32>, word_bytes: usize) -> (r: Result<
    ArgvLocation,
    EnvError,
>)
    ensures
        match r {
            Ok(loc) => is_first_hit(words@, loc.count as int) && address_below(
                environ as nat,
                loc.count as nat,
                word_bytes as nat,
            ) == Some(loc.ptr),
            Err(e) => e == EnvError::FailedToGetArgvPointer && forall|i: int|
                #[trigger] is_first_hit(words@, i) ==> address_below(
                    environ as nat,
                    i as nat,
                    word_bytes as nat,
                ) is None,
        },
{
    let mut i: usize = 0;
    while i < words.len()
        invariant
            i <= words@.len(),
            forall|j: int| 0 <= j < i ==> words@[j] as int != j,
        decreases words@.len() - i,
    {
        if words[i] >= 0 && words[i] as usize == i {
            assert(is_first_hit(words@, i as int));
            return match words_below(environ, i, word_bytes) {
                Some(ptr) => Ok(ArgvLocation { count: i, ptr }),
                None => Err(EnvError::FailedToGetArgvPointer),
            };
        }
        i = i + 1;
    }
    Err(EnvError::FailedToGetArgvPointer)
}

} // verus!
