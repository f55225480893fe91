//! Port reaping: deciding which processes bound to a port must be killed.
//!
//! The discovery tooling differs by platform — on Unix `lsof -ti :PORT`
//! prints one process identifier per line, on Windows `netstat -ano -p TCP`
//! prints connection rows, of which exactly those whose local-address
//! column is bound to the target port and whose state column is LISTENING
//! are claimed — but the contract is the same: from the tool's raw output,
//! compute the identifiers to terminate, then wait a fixed settle delay.
//! The command invocations themselves are operating-system I/O and live in
//! the application shell; this module turns their output into a `ReapPlan`.

use vstd::prelude::*;

use crate::parse::{
    spec_parse_i32, parse_pid, is_ws_byte, is_digit_byte, ws_byte, digit_byte, dec_digits,
    scan_ws, all_digits, digits_value, lemma_scan_ws_bounds, lemma_digits_value_push,
    lemma_digits_value_nonneg, lemma_dec_digits_all, lemma_parse_render_roundtrip, trimmed,
};
use crate::SETTLE_MILLIS;

verus! {

/// Index of the first newline byte of `s` at or after `i` (or `s.len()`).
pub open spec fn first_nl(s: Seq<u8>, i: int) -> int
    decreases s.len() - i,
{
    if 0 <= i < s.len() && s[i] != 10 {
        first_nl(s, i + 1)
    } else {
        i
    }
}

pub proof fn lemma_first_nl_bounds(s: Seq<u8>, i: int)
    requires
        0 <= i <= s.len(),
    ensures
        i <= first_nl(s, i) <= s.len(),
    decreases s.len() - i,
{
    if i < s.len() && s[i] != 10 {
        lemma_first_nl_bounds(s, i + 1);
    }
}

/// Process identifiers parsed from the newline-separated lines of `s` from
/// position `pos` on; lines that do not parse as an identifier are skipped.
pub open spec fn pids_from(s: Seq<u8>, pos: int) -> Seq<i32>
    decreases s.len() - pos,
        when 0 <= pos <= s.len()
        via pids_from_dec
{
    let k = first_nl(s, pos);
    let head = match spec_parse_i32(s.subrange(pos, k)) {
        Some(p) => seq![p],
        None => Seq::<i32>::empty(),
    };
    if k >= s.len() {
        head
    } else {
        head + pids_from(s, k + 1)
    }
}

#[via_fn]
proof fn pids_from_dec(s: Seq<u8>, pos: int) {
    lemma_first_nl_bounds(s, pos);
}

/// The process identifiers a Unix discovery run names: one per line.
pub open spec fn spec_pids(s: Seq<u8>) -> Seq<i32> {
    pids_from(s, 0)
}

/// Finds the first newline byte at or after `from` (or the end).
#[verifier::loop_isolation(false)]
pub fn find_nl(v: &Vec<u8>, from: usize) -> (k: usize)
    requires
        from <= v@.len(),
    ensures
        k == first_nl(v@, from as int),
        from <= k <= v@.len(),
{
    let mut k = from;
    while k < v.len() && v[k] != 10
        invariant
            from <= k <= v@.len(),
            first_nl(v@, from as int) == first_nl(v@, k as int),
        decreases v@.len() - k,
    {
        k += 1;
    }
    k
}

/// Copies the byte range `[lo, hi)` of `v` into a fresh vector.
#[verifier::loop_isolation(false)]
pub fn subvec(v: &Vec<u8>, lo: usize, hi: usize) -> (r: Vec<u8>)
    requires
        lo <= hi <= v@.len(),
    ensures
        r@ == v@.subrange(lo as int, hi as int),
{
    let mut r: Vec<u8> = Vec::new();
    assert(r@ =~= v@.subrange(lo as int, lo as int));
    let mut i = lo;
    while i < hi
        invariant
            lo <= i <= hi,
            r@ == v@.subrange(lo as int, i as int),
        decreases hi - i,
    {
        r.push(v[i]);
        i += 1;
        assert(r@ =~= v@.subrange(lo as int, i as int));
    }
    r
}

/// Parses every line of a Unix discovery run's output as a process
/// identifier, in order, skipping lines that are not one.
pub fn extract_pids(output: &Vec<u8>) -> (pids: Vec<i32>)
    ensures
        pids@ == spec_pids(output@),
{
    let len = output.len();
    let mut pids: Vec<i32> = Vec::new();
    let mut pos: usize = 0;
    loop
        invariant_except_break
            0 <= pos <= len,
            len == output@.len(),
            pids@ + pids_from(output@, pos as int) == spec_pids(output@),
        ensures
            pids@ == spec_pids(output@),
        decreases len - pos,
    {
        let k = find_nl(output, pos);
        let line = subvec(output, pos, k);
        match parse_pid(&line) {
            Some(p) => pids.push(p),
            None => {},
        }
        if k == len {
            break;
        }
        pos = k + 1;
    }
    pids
}

/// End of the token that starts at `i`: the index of the first whitespace
/// byte at or after `i` (or `s.len()`).
pub open spec fn scan_token(s: Seq<u8>, i: int) -> int
    decreases s.len() - i,
{
    if 0 <= i < s.len() && !is_ws_byte(s[i]) {
        scan_token(s, i + 1)
    } else {
        i
    }
}

/// Bounds and terminal fact of the token scan: it stops inside the string
/// only on a whitespace byte.
pub proof fn lemma_scan_token_bounds(s: Seq<u8>, i: int)
    requires
        0 <= i <= s.len(),
    ensures
        i <= scan_token(s, i) <= s.len(),
        scan_token(s, i) < s.len() ==> is_ws_byte(s[scan_token(s, i)]),
    decreases s.len() - i,
{
    if i < s.len() && !is_ws_byte(s[i]) {
        lemma_scan_token_bounds(s, i + 1);
    }
}

/// The whitespace-separated tokens of `s` from position `i` on, in order,
/// as `str::split_whitespace` yields them on ASCII text.
pub open spec fn tokens_from(s: Seq<u8>, i: int) -> Seq<Seq<u8>>
    decreases s.len() - i,
        when 0 <= i <= s.len()
        via tokens_from_dec
{
    let b = scan_ws(s, i);
    if b >= s.len() {
        Seq::<Seq<u8>>::empty()
    } else {
        seq![s.subrange(b, scan_token(s, b))] + tokens_from(s, scan_token(s, b))
    }
}

#[via_fn]
proof fn tokens_from_dec(s: Seq<u8>, i: int) {
    lemma_scan_ws_bounds(s, i);
    let b = scan_ws(s, i);
    if b < s.len() {
        lemma_scan_token_bounds(s, b + 1);
        assert(scan_token(s, b) == scan_token(s, b + 1));
    }
}

/// Splits a row into its whitespace-separated tokens, in order.
pub fn tokens(line: &Vec<u8>) -> (r: Vec<Vec<u8>>)
    ensures
        r@.map_values(|t: Vec<u8>| t@) == tokens_from(line@, 0),
{
    let len = line.len();
    let mut r: Vec<Vec<u8>> = Vec::new();
    let mut pos: usize = 0;
    assert(r@.map_values(|t: Vec<u8>| t@) =~= Seq::<Seq<u8>>::empty());
    loop
        invariant_except_break
            0 <= pos <= len,
            len == line@.len(),
            r@.map_values(|t: Vec<u8>| t@) + tokens_from(line@, pos as int) == tokens_from(
                line@,
                0,
            ),
        ensures
            r@.map_values(|t: Vec<u8>| t@) == tokens_from(line@, 0),
        decreases len - pos,
    {
        let mut b = pos;
        while b < len && ws_byte(line[b])
            invariant
                pos <= b <= len,
                len == line@.len(),
                scan_ws(line@, pos as int) == scan_ws(line@, b as int),
            decreases len - b,
        {
            b += 1;
        }
        assert(scan_ws(line@, pos as int) == b as int);
        if b == len {
            assert(tokens_from(line@, pos as int) =~= Seq::<Seq<u8>>::empty());
            break;
        }
        let mut e = b;
        while e < len && !ws_byte(line[e])
            invariant
                b <= e <= len,
                len == line@.len(),
                scan_token(line@, b as int) == scan_token(line@, e as int),
            decreases len - e,
        {
            e += 1;
        }
        assert(scan_token(line@, b as int) == e as int);
        let tok = subvec(line, b, e);
        let ghost before = r@.map_values(|t: Vec<u8>| t@);
        r.push(tok);
        assert(r@.map_values(|t: Vec<u8>| t@) =~= before.push(tok@));
        pos = e;
    }
    r
}

/// Index of the last colon byte of `s` strictly before `j`, or -1.
pub open spec fn last_colon(s: Seq<u8>, j: int) -> int
    decreases j,
{
    if j <= 0 {
        -1
    } else if j <= s.len() && s[j - 1] == 58 {
        j - 1
    } else {
        last_colon(s, j - 1)
    }
}

/// The port a local-address column names: the digits after the token's
/// last colon, read numerically; nothing without a colon, or without a
/// nonempty all-digit suffix.
pub open spec fn spec_local_port(tok: Seq<u8>) -> Option<int> {
    let c = last_colon(tok, tok.len() as int);
    if c < 0 {
        None
    } else {
        let ds = tok.subrange(c + 1, tok.len() as int);
        if ds.len() > 0 && all_digits(ds) {
            Some(digits_value(ds))
        } else {
            None
        }
    }
}

/// Is the local-address column bound to exactly `port`? The comparison is
/// numeric, so leading zeros in the digits are immaterial.
#[verifier::loop_isolation(false)]
pub fn local_port_matches(tok: &Vec<u8>, port: u16) -> (r: bool)
    ensures
        r == (spec_local_port(tok@) == Some(port as int)),
{
    let len = tok.len();
    let mut j: usize = len;
    while j > 0 && tok[j - 1] != 58
        invariant
            0 <= j <= len,
            last_colon(tok@, len as int) == last_colon(tok@, j as int),
        decreases j,
    {
        j -= 1;
    }
    if j == 0 {
        assert(last_colon(tok@, len as int) == -1);
        return false;
    }
    assert(last_colon(tok@, len as int) == j - 1);
    let ghost ds = tok@.subrange(j as int, len as int);
    if j == len {
        // a colon with nothing after it names no port
        return false;
    }
    let mut acc: u32 = 0;
    let mut big = false;
    let mut i: usize = j;
    while i < len
        invariant
            j <= i <= len,
            len == tok@.len(),
            ds == tok@.subrange(j as int, len as int),
            all_digits(tok@.subrange(j as int, i as int)),
            !big ==> acc == digits_value(tok@.subrange(j as int, i as int)) && acc <= 0xffff,
            big ==> digits_value(tok@.subrange(j as int, i as int)) > 0xffff,
        decreases len - i,
    {
        let ghost pre = tok@.subrange(j as int, i as int);
        let b = tok[i];
        if !digit_byte(b) {
            assert(!all_digits(ds)) by {
                assert(ds[i - j] == b);
            }
            return false;
        }
        proof {
            assert(tok@.subrange(j as int, (i + 1) as int) =~= pre.push(b));
            lemma_digits_value_push(pre, b);
            if big {
                lemma_digits_value_nonneg(pre);
            }
        }
        if !big {
            let na = acc * 10 + ((b - 48) as u32);
            if na > 0xffff {
                big = true;
            } else {
                acc = na;
            }
        }
        i += 1;
    }
    assert(tok@.subrange(j as int, len as int) == ds);
    if big {
        // the digits name a number above any port
        return false;
    }
    acc == port as u32
}

/// Exact byte-for-byte equality of two byte strings.
#[verifier::loop_isolation(false)]
pub fn eq_bytes(a: &Vec<u8>, b: &Vec<u8>) -> (r: bool)
    ensures
        r == (a@ == b@),
{
    if a.len() != b.len() {
        return false;
    }
    let mut i: usize = 0;
    while i < a.len()
        invariant
            0 <= i <= a@.len(),
            a@.len() == b@.len(),
            forall|k: int| 0 <= k < i ==> a@[k] == b@[k],
        decreases a@.len() - i,
    {
        if a[i] != b[i] {
            return false;
        }
        i += 1;
    }
    assert(a@ =~= b@);
    true
}

/// The state column a listening connection row shows ("LISTENING").
pub open spec fn spec_listening_marker() -> Seq<u8> {
    seq![76u8, 73u8, 83u8, 84u8, 69u8, 78u8, 73u8, 78u8, 71u8]
}

/// Builds the LISTEN-state marker bytes.
pub fn listening_marker() -> (r: Vec<u8>)
    ensures
        r@ == spec_listening_marker(),
{
    let mut r: Vec<u8> = Vec::new();
    r.push(76);
    r.push(73);
    r.push(83);
    r.push(84);
    r.push(69);
    r.push(78);
    r.push(73);
    r.push(78);
    r.push(71);
    assert(r@ =~= spec_listening_marker());
    r
}

/// What one connection row of a Windows discovery run contributes: the
/// row's final column (its process identifier) exactly when the row's
/// local-address column — its second whitespace-separated token — is bound
/// to `port` and its state column is exactly the LISTEN marker; nothing
/// otherwise. A port that merely prefixes the bound port's digits, or that
/// occurs in the foreign-address column, claims nothing.
pub open spec fn spec_listen_line(line: Seq<u8>, port: u16) -> Option<Seq<u8>> {
    let ts = tokens_from(line, 0);
    if ts.len() >= 5 && spec_local_port(ts[1]) == Some(port as int) && ts[3]
        == spec_listening_marker() {
        Some(ts.last())
    } else {
        None
    }
}

/// Process identifier tokens from the newline-separated rows of a Windows
/// discovery run, from position `pos` on.
pub open spec fn win_pids_from(s: Seq<u8>, port: u16, pos: int) -> Seq<Seq<u8>>
    decreases s.len() - pos,
        when 0 <= pos <= s.len()
        via win_pids_from_dec
{
    let k = first_nl(s, pos);
    let head = match spec_listen_line(s.subrange(pos, k), port) {
        Some(t) => seq![t],
        None => Seq::<Seq<u8>>::empty(),
    };
    if k >= s.len() {
        head
    } else {
        head + win_pids_from(s, port, k + 1)
    }
}

#[via_fn]
proof fn win_pids_from_dec(s: Seq<u8>, port: u16, pos: int) {
    lemma_first_nl_bounds(s, pos);
}

/// The process identifier tokens a Windows discovery run names for `port`.
pub open spec fn spec_win_pids(s: Seq<u8>, port: u16) -> Seq<Seq<u8>> {
    win_pids_from(s, port, 0)
}

/// Filters the rows of a Windows discovery run down to the identifier
/// tokens of the processes in LISTEN state whose local address is bound to
/// `port`, in row order.
pub fn extract_listening_pids(output: &Vec<u8>, port: u16) -> (pids: Vec<Vec<u8>>)
    ensures
        pids@.map_values(|t: Vec<u8>| t@) == spec_win_pids(output@, port),
{
    let marker = listening_marker();
    let len = output.len();
    let mut pids: Vec<Vec<u8>> = Vec::new();
    let mut pos: usize = 0;
    assert(pids@.map_values(|t: Vec<u8>| t@) =~= Seq::<Seq<u8>>::empty());
    loop
        invariant_except_break
            0 <= pos <= len,
            len == output@.len(),
            marker@ == spec_listening_marker(),
            pids@.map_values(|t: Vec<u8>| t@) + win_pids_from(output@, port, pos as int)
                == spec_win_pids(output@, port),
        ensures
            pids@.map_values(|t: Vec<u8>| t@) == spec_win_pids(output@, port),
        decreases len - pos,
    {
        let k = find_nl(output, pos);
        let line = subvec(output, pos, k);
        let mut ts = tokens(&line);
        let ghost tsq = tokens_from(line@, 0);
        assert(ts@.len() == tsq.len());
        if ts.len() >= 5 {
            assert(ts@[1]@ == tsq[1] && ts@[3]@ == tsq[3]);
            if local_port_matches(&ts[1], port) && eq_bytes(&ts[3], &marker) {
                match ts.pop() {
                    Some(pid_tok) => {
                        assert(pid_tok@ == tsq.last());
                        let ghost before = pids@.map_values(|t: Vec<u8>| t@);
                        pids.push(pid_tok);
                        assert(pids@.map_values(|t: Vec<u8>| t@) =~= before.push(pid_tok@));
                    },
                    None => {
                        assert(false);
                    },
                }
            }
        }
        if k == len {
            break;
        }
        pos = k + 1;
    }
    pids
}

/// A faithful Unix discovery listing of the processes bound to a port:
/// each process identifier on its own line, as `lsof -ti` prints them.
pub open spec fn render_pid_lines(pids: Seq<i32>) -> Seq<u8>
    decreases pids.len(),
{
    if pids.len() == 0 {
        Seq::<u8>::empty()
    } else {
        dec_digits(pids[0] as nat) + seq![10u8] + render_pid_lines(pids.drop_first())
    }
}

proof fn lemma_first_nl_shift(a: Seq<u8>, b: Seq<u8>, i: int)
    requires
        0 <= i <= b.len(),
    ensures
        first_nl(a + b, a.len() + i) == a.len() + first_nl(b, i),
    decreases b.len() - i,
{
    if i < b.len() && b[i] != 10 {
        assert((a + b)[a.len() + i] == b[i]);
        lemma_first_nl_shift(a, b, i + 1);
    }
}

proof fn lemma_pids_from_shift(a: Seq<u8>, b: Seq<u8>, pos: int)
    requires
        0 <= pos <= b.len(),
    ensures
        pids_from(a + b, a.len() + pos) == pids_from(b, pos),
    decreases b.len() - pos,
{
    lemma_first_nl_shift(a, b, pos);
    lemma_first_nl_bounds(b, pos);
    let k = first_nl(b, pos);
    assert((a + b).subrange(a.len() + pos, a.len() + k) =~= b.subrange(pos, k));
    if k < b.len() {
        lemma_pids_from_shift(a, b, k + 1);
    }
}

/// One rendered identifier line parses back to that identifier, and the
/// rest of the listing is untouched behind it.
proof fn lemma_pids_from_cons(p: i32, rest: Seq<i32>)
    requires
        0 <= p,
    ensures
        spec_pids(render_pid_lines(seq![p] + rest)) == seq![p] + spec_pids(render_pid_lines(rest)),
{
    let whole = seq![p] + rest;
    assert(whole[0] == p);
    assert(whole.drop_first() =~= rest);
    let ds = dec_digits(p as nat);
    let s = ds + seq![10u8] + render_pid_lines(rest);
    assert(render_pid_lines(whole) == s);
    lemma_dec_digits_all(p as nat);
    assert(forall|j: int| 0 <= j < ds.len() ==> is_digit_byte(#[trigger] s[j]));
    assert(s[ds.len() as int] == 10);
    lemma_first_nl_found(s, 0, ds.len() as int);
    let k = ds.len() as int;
    assert(s.subrange(0, k) =~= ds);
    lemma_parse_render_roundtrip(p as nat);
    assert(spec_parse_i32(s.subrange(0, k)) == Some(p));
    assert(k < s.len());
    assert((ds + seq![10u8]) + render_pid_lines(rest) =~= s);
    lemma_pids_from_shift(ds + seq![10u8], render_pid_lines(rest), 0);
    assert(pids_from(s, k + 1) == pids_from(render_pid_lines(rest), 0));
}

proof fn lemma_first_nl_found(s: Seq<u8>, i: int, d: int)
    requires
        0 <= i <= d < s.len(),
        forall|j: int| i <= j < d ==> s[j] != 10,
        s[d] == 10,
    ensures
        first_nl(s, i) == d,
    decreases d - i,
{
    if i < d {
        lemma_first_nl_found(s, i + 1, d);
    }
}

/// Reaping is idempotent. A reap pass on a faithful listing of the
/// processes bound to a port kills exactly those processes — no more, no
/// fewer — so once they are gone the next discovery lists nothing, and the
/// plan of a second pass over that empty listing kills nothing: a no-op.
pub proof fn lemma_reap_idempotent(bound: Seq<i32>)
    requires
        forall|i: int| 0 <= i < bound.len() ==> 0 <= #[trigger] bound[i],
    ensures
        spec_pids(render_pid_lines(bound)) == bound,
        spec_pids(render_pid_lines(Seq::<i32>::empty())) == Seq::<i32>::empty(),
    decreases bound.len(),
{
    assert(trimmed(Seq::<u8>::empty()) =~= Seq::<u8>::empty());
    assert(spec_pids(render_pid_lines(Seq::<i32>::empty())) =~= Seq::<i32>::empty());
    if bound.len() > 0 {
        lemma_reap_idempotent(bound.drop_first());
        assert(seq![bound[0]] + bound.drop_first() =~= bound);
        lemma_pids_from_cons(bound[0], bound.drop_first());
        assert(seq![bound[0]] + spec_pids(render_pid_lines(bound.drop_first())) =~= bound);
    }
}

/// What one reap pass must do: force-kill each listed process identifier,
/// then wait the settle delay before the port is used again.
pub struct ReapPlan {
    pub kill_pids: Vec<i32>,
    pub settle_millis: u64,
}

/// Decides a Unix reap pass from the discovery command's outcome. A failed
/// query (`None`) is not an error: nothing is killed, as when the port is
/// free. The settle delay is owed in every case.
pub fn reap_plan_unix(query: &Option<Vec<u8>>) -> (plan: ReapPlan)
    ensures
        plan.settle_millis == SETTLE_MILLIS,
        (query matches Some(out) ==> plan.kill_pids@ == spec_pids(out@)),
        (query is None ==> plan.kill_pids@ == Seq::<i32>::empty()),
{
    match query {
        Some(out) => ReapPlan { kill_pids: extract_pids(out), settle_millis: SETTLE_MILLIS },
        None => {
            let empty: Vec<i32> = Vec::new();
            assert(empty@ =~= Seq::<i32>::empty());
            ReapPlan { kill_pids: empty, settle_millis: SETTLE_MILLIS }
        },
    }
}

/// What one Windows reap pass must do; identifiers are the tokens the
/// discovery rows name, handed to the kill tool verbatim.
pub struct WinReapPlan {
    pub kill_pids: Vec<Vec<u8>>,
    pub settle_millis: u64,
}

/// Decides a Windows reap pass from the discovery command's outcome, under
/// the same policy as the Unix pass.
pub fn reap_plan_windows(query: &Option<Vec<u8>>, port: u16) -> (plan: WinReapPlan)
    ensures
        plan.settle_millis == SETTLE_MILLIS,
        (query matches Some(out) ==> plan.kill_pids@.map_values(|t: Vec<u8>| t@)
            == spec_win_pids(out@, port)),
        (query is None ==> plan.kill_pids@.len() == 0),
{
    match query {
        Some(out) => WinReapPlan {
            kill_pids: extract_listening_pids(out, port),
            settle_millis: SETTLE_MILLIS,
        },
        None => WinReapPlan { kill_pids: Vec::new(), settle_millis: SETTLE_MILLIS },
    }
}

} // verus!
