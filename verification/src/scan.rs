//! Line port scanner: a pure heuristic that extracts a TCP port number from
//! one line of noisy log text.
//!
//! Priority order: a digit run right after the literal `[PORT]` marker wins;
//! otherwise the line is tokenized into maximal digit runs, runs strictly
//! between 1024 and 65535 become candidates, and a context keyword (a "port"
//! word or a loopback URL prefix) selects the first candidate while its
//! absence selects the last.

use vstd::prelude::*;

verus! {

/// A value qualifies as a port when it lies strictly between 1024 and 65535.
pub open spec fn port_ok(v: nat) -> bool {
    1024 < v && v < 65535
}

pub open spec fn is_digit(c: char) -> bool {
    48 <= c as u32 && c as u32 <= 57
}

pub open spec fn digit_val(c: char) -> nat
    recommends
        is_digit(c),
{
    (c as u32 - 48) as nat
}

/// Length of the maximal digit run of `s` that starts at `i`.
pub open spec fn run_len_at(s: Seq<char>, i: int) -> nat
    decreases s.len() - i,
{
    if i < 0 || i >= s.len() {
        0
    } else if !is_digit(s[i]) {
        0
    } else {
        1 + run_len_at(s, i + 1)
    }
}

/// Numeric value of the `n` digit characters of `s` beginning at `i`.
pub open spec fn run_value_at(s: Seq<char>, i: int, n: nat) -> nat
    decreases n,
{
    if n == 0 {
        0
    } else {
        run_value_at(s, i, (n - 1) as nat) * 10 + digit_val(s[i + n - 1])
    }
}

/// `i` is the first character of a maximal digit run of `s`.
pub open spec fn run_starts_at(s: Seq<char>, i: int) -> bool {
    &&& 0 <= i < s.len()
    &&& is_digit(s[i])
    &&& (i == 0 || !is_digit(s[i - 1]))
}

/// A digit run fits inside the line it was found in.
pub proof fn lemma_run_len_le(s: Seq<char>, i: int)
    requires
        0 <= i <= s.len(),
    ensures
        run_len_at(s, i) <= s.len() - i,
    decreases s.len() - i,
{
    if i < s.len() && is_digit(s[i]) {
        lemma_run_len_le(s, i + 1);
    }
}

/// Values of all maximal digit runs of `s` that start at or after `i`,
/// in order of appearance.
pub open spec fn run_values_from(s: Seq<char>, i: int) -> Seq<nat>
    decreases s.len() - i,
    via run_values_from_dec
{
    if i < 0 || i >= s.len() {
        Seq::empty()
    } else if run_starts_at(s, i) {
        seq![run_value_at(s, i, run_len_at(s, i))] + run_values_from(
            s,
            i + run_len_at(s, i),
        )
    } else {
        run_values_from(s, i + 1)
    }
}

#[via_fn]
proof fn run_values_from_dec(s: Seq<char>, i: int) {
    if 0 <= i < s.len() && run_starts_at(s, i) {
        lemma_run_len_le(s, i);
    }
}

/// The candidate list of step two of the heuristic: every maximal digit run
/// of the whole line whose value qualifies as a port, in order of appearance.
pub open spec fn candidate_ports(s: Seq<char>) -> Seq<nat> {
    run_values_from(s, 0).filter(|v: nat| port_ok(v))
}

/// The needle occurs in `hay` at position `i`.
pub open spec fn matches_at(hay: Seq<char>, needle: Seq<char>, i: int) -> bool {
    &&& 0 <= i
    &&& i + needle.len() <= hay.len()
    &&& hay.subrange(i, i + needle.len()) == needle
}

pub open spec fn contains_sub(hay: Seq<char>, needle: Seq<char>) -> bool {
    exists|i: int| matches_at(hay, needle, i)
}

/// Position of the first occurrence of `needle` at or after `i`, if any.
pub open spec fn find_from(hay: Seq<char>, needle: Seq<char>, i: int) -> Option<int>
    decreases hay.len() - i + 1,
{
    if i < 0 || i + needle.len() > hay.len() {
        None
    } else if matches_at(hay, needle, i) {
        Some(i)
    } else {
        find_from(hay, needle, i + 1)
    }
}

pub open spec fn find_sub(hay: Seq<char>, needle: Seq<char>) -> Option<int> {
    find_from(hay, needle, 0)
}

pub open spec fn spec_marker() -> Seq<char> {
    "[PORT]"@
}

/// A line is keyword-bearing when it names a port in a supported language or
/// carries a loopback URL.
pub open spec fn has_keyword(s: Seq<char>) -> bool {
    ||| contains_sub(s, "port"@)
    ||| contains_sub(s, "\u{7aef}\u{53e3}"@)
    ||| contains_sub(s, "://127.0.0.1"@)
}

/// Value of the first digit run at or after `i`, if there is one.
pub open spec fn first_run_from(s: Seq<char>, i: int) -> Option<nat> {
    if run_values_from(s, i).len() > 0 {
        Some(run_values_from(s, i)[0])
    } else {
        None
    }
}

/// The first digit run at or after `i`, kept only when it qualifies as a port.
pub open spec fn first_port_from(s: Seq<char>, i: int) -> Option<u16> {
    match first_run_from(s, i) {
        Some(v) => if port_ok(v) {
            Some(v as u16)
        } else {
            None
        },
        None => None,
    }
}

/// The port taken from the digit run right after the first `[PORT]` marker,
/// when the marker is present and that run qualifies.
pub open spec fn marker_hit(s: Seq<char>) -> Option<u16> {
    match find_sub(s, spec_marker()) {
        Some(m) => first_port_from(s, m + spec_marker().len()),
        None => None,
    }
}

/// The whole heuristic: marker first, then keyword-selected first candidate,
/// then last candidate, then nothing.
pub open spec fn scan_spec(s: Seq<char>) -> Option<u16> {
    match marker_hit(s) {
        Some(p) => Some(p),
        None => {
            let cands = candidate_ports(s);
            if cands.len() == 0 {
                None
            } else if has_keyword(s) {
                Some(cands[0] as u16)
            } else {
                Some(cands[cands.len() - 1] as u16)
            }
        },
    }
}

fn char_is_digit(c: char) -> (r: bool)
    ensures
        r == is_digit(c),
{
    let u = c as u32;
    48 <= u && u <= 57
}

/// A successful find points at a real occurrence at or after where it began.
pub proof fn lemma_find_from_some(hay: Seq<char>, needle: Seq<char>, i: int, m: int)
    requires
        find_from(hay, needle, i) == Some(m),
    ensures
        matches_at(hay, needle, m),
        i <= m,
    decreases hay.len() - i + 1,
{
    if !(i < 0 || i + needle.len() > hay.len()) && !matches_at(hay, needle, i) {
        lemma_find_from_some(hay, needle, i + 1, m);
    }
}

/// A failed find rules out every occurrence at or after where it began.
pub proof fn lemma_find_from_none(hay: Seq<char>, needle: Seq<char>, i: int, j: int)
    requires
        0 <= i <= j,
        find_from(hay, needle, i) is None,
    ensures
        !matches_at(hay, needle, j),
    decreases j - i,
{
    if i + needle.len() > hay.len() {
    } else if i < j {
        lemma_find_from_none(hay, needle, i + 1, j);
    }
}

/// Character-by-character substring search, exact against `find_sub`.
pub fn find_sub_str(hay: &str, needle: &str) -> (r: Option<usize>)
    ensures
        match r {
            Some(i) => find_sub(hay@, needle@) == Some(i as int),
            None => find_sub(hay@, needle@) is None,
        },
{
    let n = hay.unicode_len();
    let m = needle.unicode_len();
    if m > n {
        return None;
    }
    if m == 0 {
        proof {
            assert(hay@.subrange(0, 0) =~= needle@);
        }
        return Some(0);
    }
    let mut i: usize = 0;
    while i <= n - m
        invariant
            1 <= m <= n,
            n == hay@.len(),
            m == needle@.len(),
            i <= n - m + 1,
            find_from(hay@, needle@, 0) == find_from(hay@, needle@, i as int),
        decreases n - m + 1 - i,
    {
        let mut j: usize = 0;
        let mut ok = true;
        while j < m && ok
            invariant
                i + m <= n,
                n == hay@.len(),
                m == needle@.len(),
                j <= m,
                ok ==> forall|k: int| 0 <= k < j ==> hay@[i + k] == needle@[k],
                !ok ==> !matches_at(hay@, needle@, i as int),
            decreases m - j + (if ok { 1int } else { 0int }),
        {
            if hay.get_char(i + j) == needle.get_char(j) {
                j = j + 1;
            } else {
                proof {
                    if matches_at(hay@, needle@, i as int) {
                        assert(hay@.subrange(i as int, i + m)[j as int] == needle@[j as int]);
                    }
                }
                ok = false;
            }
        }
        if ok {
            proof {
                assert(hay@.subrange(i as int, i + m) =~= needle@);
            }
            return Some(i);
        }
        i = i + 1;
    }
    None
}

/// True exactly when the needle occurs somewhere in the haystack.
pub fn contains_str(hay: &str, needle: &str) -> (r: bool)
    ensures
        r == contains_sub(hay@, needle@),
{
    match find_sub_str(hay, needle) {
        Some(i) => {
            proof {
                lemma_find_from_some(hay@, needle@, 0, i as int);
            }
            true
        },
        None => {
            proof {
                assert forall|j: int| !matches_at(hay@, needle@, j) by {
                    if 0 <= j {
                        lemma_find_from_none(hay@, needle@, 0, j);
                    }
                }
            }
            false
        },
    }
}

/// A run value collapsed to the smallest bound that still decides whether it
/// qualifies as a port: every value above 65536 is indistinguishable from
/// 65536 for that question.
pub open spec fn capped_value(v: nat) -> nat {
    if v > 65536 {
        65536
    } else {
        v
    }
}

/// Digits from `i` up to a non-digit boundary `e` form the whole maximal run
/// starting at `i`.
proof fn lemma_run_len_eq(s: Seq<char>, i: int, e: int)
    requires
        0 <= i <= e <= s.len(),
        forall|k: int| i <= k < e ==> is_digit(s[k]),
        e == s.len() || !is_digit(s[e]),
    ensures
        run_len_at(s, i) == e - i,
    decreases e - i,
{
    if i < e {
        lemma_run_len_eq(s, i + 1, e);
    }
}

/// Walks the digit run starting at `start` and returns its end together with
/// its value, saturated at 65536 so the accumulator cannot overflow.
fn read_run(line: &str, start: usize) -> (res: (usize, u32))
    requires
        start < line@.len(),
        is_digit(line@[start as int]),
    ensures
        start < res.0 <= line@.len(),
        res.0 - start == run_len_at(line@, start as int),
        res.1 as nat == capped_value(
            run_value_at(line@, start as int, (res.0 - start) as nat),
        ),
{
    let n = line.unicode_len();
    let mut end = start;
    let mut acc: u32 = 0;
    while end < n && char_is_digit(line.get_char(end))
        invariant
            n == line@.len(),
            start <= end <= n,
            start < line@.len(),
            is_digit(line@[start as int]),
            forall|k: int| start <= k < end ==> is_digit(line@[k]),
            acc <= 65536,
            acc as nat == capped_value(
                run_value_at(line@, start as int, (end - start) as nat),
            ),
        decreases n - end,
    {
        let d = (line.get_char(end) as u32) - 48;
        proof {
            assert(run_value_at(line@, start as int, (end - start + 1) as nat)
                == run_value_at(line@, start as int, (end - start) as nat) * 10
                + digit_val(line@[end as int]));
        }
        if acc > 65535 {
            // the true value is already at least 65536 and only grows
        } else {
            let t = acc * 10 + d;
            if t > 65535 {
                acc = 65536;
            } else {
                acc = t;
            }
        }
        end = end + 1;
    }
    proof {
        lemma_run_len_eq(line@, start as int, end as int);
    }
    (end, acc)
}

/// Scans from `from` for the first digit run and reports it when it
/// qualifies as a port; the workhorse behind the marker rule.
fn scan_after(line: &str, from: usize) -> (r: Option<u16>)
    requires
        from <= line@.len(),
    ensures
        r == first_port_from(line@, from as int),
{
    let n = line.unicode_len();
    let mut i = from;
    while i < n
        invariant
            n == line@.len(),
            from <= i <= n,
            run_values_from(line@, from as int) == run_values_from(line@, i as int),
        decreases n - i,
    {
        if char_is_digit(line.get_char(i)) && (i == 0 || !char_is_digit(
            line.get_char(i - 1),
        )) {
            let (end, acc) = read_run(line, i);
            proof {
                assert(run_starts_at(line@, i as int));
                assert(run_values_from(line@, i as int)[0] == run_value_at(
                    line@,
                    i as int,
                    run_len_at(line@, i as int),
                ));
            }
            if 1024 < acc && acc < 65535 {
                return Some(acc as u16);
            } else {
                return None;
            }
        }
        i = i + 1;
    }
    None
}

/// Collects, in order of appearance, the value of every maximal digit run of
/// the line that qualifies as a port.
pub fn collect_candidate_ports(line: &str) -> (r: Vec<u16>)
    ensures
        r@.map_values(|p: u16| p as nat) == candidate_ports(line@),
{
    let ghost pred = |v: nat| port_ok(v);
    let n = line.unicode_len();
    let mut out: Vec<u16> = Vec::new();
    let mut i: usize = 0;
    while i < n
        invariant
            n == line@.len(),
            i <= n,
            candidate_ports(line@) == out@.map_values(|p: u16| p as nat)
                + run_values_from(line@, i as int).filter(pred),
            pred == (|v: nat| port_ok(v)),
        decreases n - i,
    {
        if char_is_digit(line.get_char(i)) && (i == 0 || !char_is_digit(
            line.get_char(i - 1),
        )) {
            let (end, acc) = read_run(line, i);
            let ghost v = run_value_at(line@, i as int, run_len_at(line@, i as int));
            proof {
                assert(run_starts_at(line@, i as int));
                assert(run_values_from(line@, i as int) == seq![v]
                    + run_values_from(line@, end as int));
                Seq::filter_distributes_over_add(
                    seq![v],
                    run_values_from(line@, end as int),
                    pred,
                );
                reveal_with_fuel(Seq::filter, 2);
                assert(Seq::<nat>::empty().filter(pred) =~= Seq::<nat>::empty());
                assert(seq![v].drop_last() =~= Seq::<nat>::empty());
            }
            if 1024 < acc && acc < 65535 {
                proof {
                    assert(seq![v].filter(pred) =~= seq![v]);
                    assert((out@ + seq![acc as u16]).map_values(|p: u16| p as nat)
                        =~= out@.map_values(|p: u16| p as nat) + seq![v]);
                }
                out.push(acc as u16);
                proof {
                    assert(out@.map_values(|p: u16| p as nat)
                        == (out@.drop_last() + seq![acc as u16]).map_values(
                        |p: u16| p as nat,
                    ));
                    assert(out@.drop_last() + seq![acc as u16] =~= out@);
                }
            } else {
                proof {
                    assert(seq![v].filter(pred) =~= Seq::<nat>::empty());
                }
            }
            i = end;
        } else {
            i = i + 1;
        }
    }
    proof {
        assert(run_values_from(line@, i as int).filter(pred) =~= Seq::<nat>::empty())
            by {
            reveal_with_fuel(Seq::filter, 2);
        }
        assert(candidate_ports(line@) =~= out@.map_values(|p: u16| p as nat));
    }
    out
}

/// The keyword test of step three: a "port" word in a supported language or
/// a loopback URL prefix.
pub fn line_has_keyword(line: &str) -> (r: bool)
    ensures
        r == has_keyword(line@),
{
    contains_str(line, "port") || contains_str(line, "\u{7aef}\u{53e3}") || contains_str(
        line,
        "://127.0.0.1",
    )
}

/// Extracts a port number from one line of log text, or nothing when no
/// qualifying number is present. The heuristic never fails: a miss is a
/// normal outcome. The result is exactly `scan_spec` of the line.
pub fn parse_port_from_line(line: &str) -> (r: Option<u16>)
    ensures
        r == scan_spec(line@),
{
    match find_sub_str(line, "[PORT]") {
        Some(m) => {
            proof {
                lemma_find_from_some(line@, spec_marker(), 0, m as int);
                reveal_strlit("[PORT]");
            }
            // the call is for its contract: the line length, and with it
            // the position after the marker, fits in usize
            let _line_len = line.unicode_len();
            let hit = scan_after(line, m + 6);
            if hit.is_some() {
                return hit;
            }
        },
        None => {},
    }
    let cands = collect_candidate_ports(line);
    if cands.len() == 0 {
        None
    } else if line_has_keyword(line) {
        proof {
            assert(candidate_ports(line@)[0] == cands@.map_values(|p: u16| p as nat)[0]);
        }
        Some(cands[0])
    } else {
        proof {
            assert(candidate_ports(line@)[cands@.len() - 1] == cands@.map_values(
                |p: u16| p as nat,
            )[cands@.len() - 1]);
        }
        Some(cands[cands.len() - 1])
    }
}

/// The characters of the maximal run starting at `i` are digits, and the run
/// ends at the end of the line or at a non-digit.
proof fn lemma_run_digits(s: Seq<char>, i: int)
    requires
        0 <= i <= s.len(),
    ensures
        i + run_len_at(s, i) <= s.len(),
        forall|k: int| i <= k < i + run_len_at(s, i) ==> is_digit(s[k]),
        i + run_len_at(s, i) == s.len() || !is_digit(s[i + run_len_at(s, i)]),
    decreases s.len() - i,
{
    lemma_run_len_le(s, i);
    if i < s.len() && is_digit(s[i]) {
        lemma_run_digits(s, i + 1);
    }
}

/// Seen from any position strictly inside a run, the remaining run values
/// are those found after the run.
proof fn lemma_inside_run(s: Seq<char>, i: int, j: int)
    requires
        run_starts_at(s, i),
        i < j <= i + run_len_at(s, i),
    ensures
        run_values_from(s, j) == run_values_from(s, i + run_len_at(s, i)),
    decreases i + run_len_at(s, i) - j,
{
    lemma_run_digits(s, i);
    if j < i + run_len_at(s, i) {
        assert(!run_starts_at(s, j));
        lemma_inside_run(s, i, j + 1);
    }
}

/// Every run value found at or after a later position is also among the run
/// values of the whole line.
proof fn lemma_runs_suffix(s: Seq<char>, i: int, j: int)
    requires
        0 <= i <= j,
    ensures
        forall|v: nat|
            run_values_from(s, j).contains(v) ==> #[trigger] run_values_from(
                s,
                i,
            ).contains(v),
    decreases j - i,
{
    if i < j && i >= s.len() {
        assert(run_values_from(s, j) =~= Seq::<nat>::empty());
    } else if i < j && i < s.len() {
        if run_starts_at(s, i) {
            lemma_run_len_le(s, i);
            let e = i + run_len_at(s, i);
            let head = seq![run_value_at(s, i, run_len_at(s, i))];
            let tail = run_values_from(s, e);
            if j < e {
                lemma_inside_run(s, i, j);
            } else {
                lemma_runs_suffix(s, e, j);
            }
            assert forall|v: nat|
                run_values_from(s, j).contains(v) implies #[trigger] run_values_from(
                s,
                i,
            ).contains(v) by {
                assert(tail.contains(v));
                let k = choose|k: int| 0 <= k < tail.len() && tail[k] == v;
                assert((head + tail)[k + 1] == v);
            }
        } else {
            lemma_runs_suffix(s, i + 1, j);
            assert(run_values_from(s, i) == run_values_from(s, i + 1));
        }
    }
}

/// Marker precedence: when the line holds the marker token and the digit run
/// right after it qualifies as a port, `scan` returns exactly that value,
/// whatever other digit runs the line holds.
pub proof fn lemma_marker_wins(s: Seq<char>, m: int, v: nat)
    requires
        find_sub(s, spec_marker()) == Some(m),
        first_run_from(s, m + spec_marker().len()) == Some(v),
        1024 < v < 65535,
    ensures
        scan_spec(s) == Some(v as u16),
{
}

/// A line none of whose digit runs lies strictly between 1024 and 65535
/// yields nothing, through the marker rule as much as through the
/// candidate rules.
pub proof fn lemma_no_candidate_no_port(s: Seq<char>)
    requires
        candidate_ports(s).len() == 0,
    ensures
        scan_spec(s) is None,
{
    match find_sub(s, spec_marker()) {
        Some(m) => {
            lemma_find_from_some(s, spec_marker(), 0, m);
            let a = m + spec_marker().len();
            match first_run_from(s, a) {
                Some(v) => {
                    assert(run_values_from(s, a).contains(v)) by {
                        assert(run_values_from(s, a)[0] == v);
                    }
                    lemma_runs_suffix(s, 0, a);
                    assert(run_values_from(s, 0).contains(v));
                    if port_ok(v) {
                        let k = choose|k: int|
                            0 <= k < run_values_from(s, 0).len() && run_values_from(
                                s,
                                0,
                            )[k] == v;
                        Seq::lemma_filter_contains(
                            run_values_from(s, 0),
                            |v: nat| port_ok(v),
                            k,
                        );
                        assert(candidate_ports(s).contains(v));
                        assert(false);
                    }
                },
                None => {},
            }
        },
        None => {},
    }
}

/// When a context keyword is present and no marker decides first, the first
/// qualifying candidate wins.
pub proof fn lemma_keyword_selects_first(s: Seq<char>)
    requires
        marker_hit(s) is None,
        has_keyword(s),
        candidate_ports(s).len() > 0,
    ensures
        scan_spec(s) == Some(candidate_ports(s)[0] as u16),
{
}

/// Without a keyword and with no marker deciding first, the last qualifying
/// candidate wins.
pub proof fn lemma_no_keyword_selects_last(s: Seq<char>)
    requires
        marker_hit(s) is None,
        !has_keyword(s),
        candidate_ports(s).len() > 0,
    ensures
        scan_spec(s) == Some(
            candidate_ports(s)[candidate_ports(s).len() - 1] as u16,
        ),
{
}

/// Whatever `scan` returns lies strictly between 1024 and 65535.
pub proof fn lemma_scan_in_range(s: Seq<char>)
    ensures
        match scan_spec(s) {
            Some(p) => 1024 < p && p < 65535,
            None => true,
        },
{
    if marker_hit(s) is None {
        let cands = candidate_ports(s);
        if cands.len() > 0 {
            Seq::lemma_filter_pred(run_values_from(s, 0), |v: nat| port_ok(v), 0);
            Seq::lemma_filter_pred(
                run_values_from(s, 0),
                |v: nat| port_ok(v),
                cands.len() - 1,
            );
        }
    }
}

} // verus!
