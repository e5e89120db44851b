use killmyargv::{argv_addrs, scan, ArgSlot, KillMyArgv, MemRegion};

const ARGV_BASE: usize = 0x7ffd_1000;

/// Pointer-array slots for strings laid out one after another from `base`,
/// followed by the null terminator.
fn slots_for(base: usize, strings: &[&[u8]]) -> Vec<ArgSlot> {
    let mut slots = Vec::new();
    let mut addr = base;
    for s in strings {
        slots.push(ArgSlot::new(addr, s.to_vec()));
        addr += s.len() + 1;
    }
    slots.push(ArgSlot::null());
    slots
}

fn region(base: usize, strings: &[&[u8]]) -> MemRegion {
    let slots = slots_for(base, strings);
    scan(strings.len(), 0x7ffd_0000, &slots).expect("scan")
}

fn argv_handle(strings: &[&[u8]]) -> KillMyArgv {
    KillMyArgv::new(region(ARGV_BASE, strings), None, usize::MAX)
}

/// What a process listing reports: the span split at NUL bytes, empty pieces
/// left out.
fn observed(h: &KillMyArgv) -> Vec<String> {
    h.span()
        .split(|b| *b == 0)
        .filter(|s| !s.is_empty())
        .map(|s| String::from_utf8_lossy(s).into_owned())
        .collect()
}

const TEST_BINARY: &[u8] = b"/tmp/testbin/set_cmdline_from_stdin";

#[test]
fn test_set_cmdline_once() {
    let mut h = argv_handle(&[TEST_BINARY]);
    h.set(b"Hello?");
    assert_eq!(observed(&h), vec!["Hello?"]);
    let mut h = argv_handle(&[TEST_BINARY]);
    h.set("Hi\0there!".as_bytes());
    assert_eq!(observed(&h), vec!["Hi", "there!"]);
}

#[test]
fn test_set_cmdline_multiple_times() {
    let mut h = argv_handle(&[TEST_BINARY]);
    h.set(b"Hello?");
    assert_eq!(observed(&h), vec!["Hello?"]);
    h.set("Hi\0there!".as_bytes());
    assert_eq!(observed(&h), vec!["Hi", "there!"]);
}

#[test]
fn test_set_cmdline_truncate_max_len() {
    let mut h = argv_handle(&[b"set_cmdline_from_stdin", b"true"]);
    let max_len = h.max_len();
    let expected = "o".repeat(max_len);
    let input = "o".repeat(max_len * 1);
    h.set(input.as_bytes());
    assert_eq!(observed(&h), vec![expected]);
}

#[test]
fn hide_and_revert_secret() {
    let mut h = argv_handle(&[b"prog", b"secret"]);
    assert_eq!(h.max_len(), 11);
    h.set(b"prog\0hidden");
    assert_eq!(observed(&h), vec!["prog", "hidden"]);
    h.revert();
    assert_eq!(observed(&h), vec!["prog", "secret"]);
    assert_eq!(h.span().as_slice(), b"prog\0secret\0");
}

#[test]
fn longer_than_max_len_is_truncated() {
    let mut h = argv_handle(&[b"prog", b"secret"]);
    h.set(b"abcdefghijklmnopqrstuvwxyz");
    assert_eq!(observed(&h), vec!["abcdefghijk"]);
    assert_eq!(h.span().as_slice(), b"abcdefghijk\0");
}

#[test]
fn shorter_write_zero_fills() {
    let mut h = argv_handle(&[b"prog", b"secret"]);
    h.set(b"abcdefghijk");
    h.set(b"xy");
    assert_eq!(h.span().as_slice(), b"xy\0\0\0\0\0\0\0\0\0\0");
    assert!(h.span()[2..h.max_len()].iter().all(|b| *b == 0));
}

#[test]
fn revert_after_many_writes_restores_span() {
    let mut h = argv_handle(&[b"prog", b"--token", b"abc"]);
    let original = h.span().clone();
    h.set(b"a");
    h.set(b"a much longer command line than before");
    h.set(b"");
    h.revert();
    assert_eq!(h.span(), &original);
}

#[test]
fn revert_twice_is_the_same() {
    let env = region(ARGV_BASE + 12, &[b"HOME=/root", b"X=1"]);
    let mut h = KillMyArgv::new(region(ARGV_BASE, &[b"prog", b"secret"]), Some(env), usize::MAX);
    h.set(b"a long line that runs into the environment");
    h.revert();
    let once = h.span().clone();
    h.revert();
    assert_eq!(h.span(), &once);
    assert_eq!(&once[..12], b"prog\0secret\0");
    assert!(once[12..h.max_len()].iter().all(|b| *b == 0));
}

#[test]
fn composed_handle_spans_environment() {
    let env = region(ARGV_BASE + 12, &[b"HOME=/root", b"X=1"]);
    let h = KillMyArgv::new(region(ARGV_BASE, &[b"prog", b"secret"]), Some(env), usize::MAX);
    assert_eq!(h.nonul_byte(), Some(12));
    assert_eq!(h.max_len(), 12 + 15 - 1);
    assert_eq!(h.argv_addrs(), (ARGV_BASE, ARGV_BASE + 12 + 14));
    assert_eq!(h.span().as_slice(), b"prog\0secret\0HOME=/root\0X=1\0");
}

#[test]
fn composed_handle_respects_os_limit() {
    let env = region(ARGV_BASE + 12, &[b"HOME=/root", b"X=1"]);
    let h = KillMyArgv::new(region(ARGV_BASE, &[b"prog", b"secret"]), Some(env), 20);
    assert_eq!(h.max_len(), 20);
}

#[test]
fn argv_only_handle_has_no_boundary() {
    let h = argv_handle(&[b"prog", b"secret"]);
    assert_eq!(h.nonul_byte(), None);
    assert_eq!(h.argv_addrs(), (ARGV_BASE, ARGV_BASE + 11));
}

#[test]
fn boundary_byte_becomes_one_past_the_boundary() {
    let env = region(ARGV_BASE + 12, &[b"HOME=/root", b"X=1"]);
    let mut h = KillMyArgv::new(region(ARGV_BASE, &[b"prog", b"secret"]), Some(env), usize::MAX);
    h.set(b"prog\0hidden\0and more");
    assert_eq!(h.span()[11], 0x01);
    assert_eq!(&h.span()[..20], b"prog\0hidden\x01and more");
}

#[test]
fn boundary_byte_kept_at_exact_length() {
    let env = region(ARGV_BASE + 12, &[b"HOME=/root", b"X=1"]);
    let mut h = KillMyArgv::new(region(ARGV_BASE, &[b"prog", b"secret"]), Some(env), usize::MAX);
    h.set(b"prog\0hidden\0");
    assert_eq!(h.span()[11], 0x00);
    assert!(h.span()[12..].iter().all(|b| *b == 0));
}

#[test]
fn end_byte_stays_nul() {
    let env = region(ARGV_BASE + 12, &[b"HOME=/root", b"X=1"]);
    let mut h = KillMyArgv::new(region(ARGV_BASE, &[b"prog", b"secret"]), Some(env), usize::MAX);
    h.set(&[b'z'; 100]);
    assert_eq!(*h.span().last().unwrap(), 0);
    assert_eq!(h.span()[11], b'z');
}

#[test]
fn argv_addrs_gives_the_span() {
    let slots = slots_for(ARGV_BASE, &[b"prog", b"secret"]);
    assert_eq!(argv_addrs(2, 0x7ffd_0000, &slots), Ok((ARGV_BASE, ARGV_BASE + 11)));
}

#[test]
fn small_os_limit_keeps_argv_alone() {
    let env = region(ARGV_BASE + 12, &[b"HOME=/root", b"X=1"]);
    let mut h = KillMyArgv::new(region(ARGV_BASE, &[b"prog", b"secret"]), Some(env), 11);
    assert_eq!(h.nonul_byte(), None);
    assert_eq!(h.max_len(), 11);
    assert_eq!(h.argv_addrs(), (ARGV_BASE, ARGV_BASE + 11));
    h.set(b"prog\0hidden\0and more");
    assert_eq!(h.span().as_slice(), b"prog\0hidden\0");
    h.revert();
    assert_eq!(h.span().as_slice(), b"prog\0secret\0");
}

#[test]
fn os_limit_of_argv_length_still_composes() {
    let env = region(ARGV_BASE + 12, &[b"HOME=/root", b"X=1"]);
    let h = KillMyArgv::new(region(ARGV_BASE, &[b"prog", b"secret"]), Some(env), 12);
    assert_eq!(h.nonul_byte(), Some(12));
    assert_eq!(h.max_len(), 12);
}

#[test]
fn detached_environment_is_left_out() {
    let env = region(ARGV_BASE + 100, &[b"HOME=/root", b"X=1"]);
    let h = KillMyArgv::new(region(ARGV_BASE, &[b"prog", b"secret"]), Some(env), usize::MAX);
    assert_eq!(h.nonul_byte(), None);
    assert_eq!(h.max_len(), 11);
    assert_eq!(h.span().as_slice(), b"prog\0secret\0");
}

#[test]
fn argv_only_max_len_spans_the_addresses() {
    let h = argv_handle(&[b"prog", b"--token", b"abc"]);
    let (b, e) = h.argv_addrs();
    assert_eq!(h.max_len(), e - b);
}
