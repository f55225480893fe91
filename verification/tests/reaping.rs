use sidecar_supervisor::parse::{parse_pid, render_u64};
use sidecar_supervisor::reaper::{
    eq_bytes, extract_listening_pids, extract_pids, local_port_matches, reap_plan_unix,
    reap_plan_windows, tokens,
};
use sidecar_supervisor::SETTLE_MILLIS;

#[test]
fn parse_plain_pid() {
    assert_eq!(parse_pid(&b"123".to_vec()), Some(123));
}

#[test]
fn parse_trims_whitespace() {
    assert_eq!(parse_pid(&b"  789\t\r\n".to_vec()), Some(789));
}

#[test]
fn parse_signs() {
    assert_eq!(parse_pid(&b"-42".to_vec()), Some(-42));
    assert_eq!(parse_pid(&b"+7".to_vec()), Some(7));
    assert_eq!(parse_pid(&b"-".to_vec()), None);
    assert_eq!(parse_pid(&b"+".to_vec()), None);
}

#[test]
fn parse_rejects_garbage() {
    assert_eq!(parse_pid(&b"".to_vec()), None);
    assert_eq!(parse_pid(&b"   ".to_vec()), None);
    assert_eq!(parse_pid(&b"12a3".to_vec()), None);
    assert_eq!(parse_pid(&b"1 2".to_vec()), None);
}

#[test]
fn parse_range_limits() {
    assert_eq!(parse_pid(&b"2147483647".to_vec()), Some(i32::MAX));
    assert_eq!(parse_pid(&b"2147483648".to_vec()), None);
    assert_eq!(parse_pid(&b"-2147483648".to_vec()), Some(i32::MIN));
    assert_eq!(parse_pid(&b"-2147483649".to_vec()), None);
    assert_eq!(parse_pid(&b"99999999999999999999".to_vec()), None);
}

#[test]
fn parse_agrees_with_std() {
    for s in ["123", " 77 ", "-5", "abc", "", "2147483648", "+0", "4 2"] {
        let expected = s.trim().parse::<i32>().ok();
        assert_eq!(parse_pid(&s.as_bytes().to_vec()), expected);
    }
}

#[test]
fn render_decimal() {
    assert_eq!(render_u64(3620), b"3620".to_vec());
    assert_eq!(render_u64(0), b"0".to_vec());
    assert_eq!(render_u64(10), b"10".to_vec());
}

#[test]
fn extract_pids_per_line() {
    assert_eq!(extract_pids(&b"123\n456\n".to_vec()), vec![123, 456]);
    assert_eq!(extract_pids(&b"123\n456".to_vec()), vec![123, 456]);
}

#[test]
fn extract_pids_skips_bad_lines() {
    assert_eq!(extract_pids(&b"abc\n12\n\n7".to_vec()), vec![12, 7]);
    assert_eq!(extract_pids(&b"".to_vec()), Vec::<i32>::new());
    assert_eq!(extract_pids(&b"\n\n".to_vec()), Vec::<i32>::new());
}

#[test]
fn tokens_of_row() {
    let row = b"  TCP  0.0.0.0:3620   0.0.0.0:0  LISTENING  1234 ".to_vec();
    assert_eq!(
        tokens(&row),
        vec![
            b"TCP".to_vec(),
            b"0.0.0.0:3620".to_vec(),
            b"0.0.0.0:0".to_vec(),
            b"LISTENING".to_vec(),
            b"1234".to_vec(),
        ]
    );
    assert_eq!(tokens(&b"   ".to_vec()), Vec::<Vec<u8>>::new());
}

#[test]
fn byte_equality() {
    assert!(eq_bytes(&b"LISTENING".to_vec(), &b"LISTENING".to_vec()));
    assert!(!eq_bytes(&b"LISTENING".to_vec(), &b"LISTENIN".to_vec()));
    assert!(!eq_bytes(&b"LISTENING".to_vec(), &b"ESTABLISHED".to_vec()));
}

#[test]
fn local_port_is_numeric() {
    assert!(local_port_matches(&b"0.0.0.0:3620".to_vec(), 3620));
    assert!(local_port_matches(&b"0.0.0.0:03620".to_vec(), 3620));
    assert!(local_port_matches(&b"[::1]:3620".to_vec(), 3620));
    // a target port that merely prefixes the bound port's digits
    assert!(!local_port_matches(&b"0.0.0.0:3620".to_vec(), 36));
    assert!(!local_port_matches(&b"0.0.0.0:3620".to_vec(), 362));
    assert!(!local_port_matches(&b"0.0.0.0:99999".to_vec(), 3620));
    assert!(!local_port_matches(&b"0.0.0.0:".to_vec(), 3620));
    assert!(!local_port_matches(&b"0.0.0.0".to_vec(), 3620));
    assert!(!local_port_matches(&b"0.0.0.0:36x0".to_vec(), 3620));
}

#[test]
fn netstat_rows_filtered() {
    let out = b"Active Connections\n\n  \
        Proto  Local Address          Foreign Address        State           PID\n  \
        TCP    0.0.0.0:3620           0.0.0.0:0              LISTENING       1234\n  \
        TCP    0.0.0.0:8080           0.0.0.0:0              LISTENING       5678\n  \
        TCP    0.0.0.0:3620           0.0.0.0:0              ESTABLISHED     9999\n"
        .to_vec();
    assert_eq!(extract_listening_pids(&out, 3620), vec![b"1234".to_vec()]);
    assert_eq!(extract_listening_pids(&out, 8080), vec![b"5678".to_vec()]);
}

#[test]
fn netstat_claims_only_the_bound_port() {
    let row = b"TCP 0.0.0.0:3620 0.0.0.0:0 LISTENING 9\n".to_vec();
    // the bound port's digits merely start with the target's: not claimed
    assert_eq!(extract_listening_pids(&row, 36), Vec::<Vec<u8>>::new());
    // the target port occurs only in the foreign-address column: not claimed
    assert_eq!(extract_listening_pids(&row, 0), Vec::<Vec<u8>>::new());
    // the bound port itself is claimed, leading zeros and all
    assert_eq!(extract_listening_pids(&row, 3620), vec![b"9".to_vec()]);
    let padded = b"TCP 0.0.0.0:003620 0.0.0.0:0 LISTENING 7\n".to_vec();
    assert_eq!(extract_listening_pids(&padded, 3620), vec![b"7".to_vec()]);
    // the state column must be exactly the LISTEN marker
    let wrong_state = b"TCP 0.0.0.0:3620 0.0.0.0:0 LISTENING-ISH 5\n".to_vec();
    assert_eq!(extract_listening_pids(&wrong_state, 3620), Vec::<Vec<u8>>::new());
}

#[test]
fn reap_plan_kills_listed_pids() {
    let plan = reap_plan_unix(&Some(b"10\n20\n".to_vec()));
    assert_eq!(plan.kill_pids, vec![10, 20]);
    assert_eq!(plan.settle_millis, SETTLE_MILLIS);
}

#[test]
fn reap_plan_failed_query_is_noop() {
    let plan = reap_plan_unix(&None);
    assert!(plan.kill_pids.is_empty());
    assert_eq!(plan.settle_millis, SETTLE_MILLIS);
}

#[test]
fn reap_twice_second_pass_is_noop() {
    // First pass: two processes bound; the plan kills exactly those.
    let first = reap_plan_unix(&Some(b"10\n20\n".to_vec()));
    assert_eq!(first.kill_pids, vec![10, 20]);
    // After they are gone the discovery lists nothing: the second pass
    // kills nothing, whether the query prints nothing or fails outright.
    let second = reap_plan_unix(&Some(b"".to_vec()));
    assert!(second.kill_pids.is_empty());
    let second_failed = reap_plan_unix(&None);
    assert!(second_failed.kill_pids.is_empty());
}

#[test]
fn settle_delay_always_owed() {
    // Even a pass that kills one process must wait the configured delay.
    let plan = reap_plan_unix(&Some(b"42\n".to_vec()));
    assert_eq!(plan.kill_pids, vec![42]);
    assert_eq!(plan.settle_millis, 500);
    let win = reap_plan_windows(&None, 3620);
    assert_eq!(win.settle_millis, 500);
}
