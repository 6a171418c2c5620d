//! Pure pieces of the model commands: remote endpoint URLs, benchmark medians and the
//! coordinator metrics report.
use vstd::prelude::*;
use crate::cli::profiles::Profile;
use crate::model::metrics::{BenchmarkFreshness, CoordinatorMetricsSnapshot};
use crate::text::{chars_of, decimal, decimal_chars, push_all, push_str, slice_chars, string_of};

verus! {

/// `s` without its trailing `/` characters.
pub open spec fn without_trailing_slashes(s: Seq<char>) -> Seq<char>
    decreases s.len(),
{
    if s.len() > 0 && s.last() == '/' {
        without_trailing_slashes(s.drop_last())
    } else {
        s
    }
}

/// `s` without its leading `/` characters.
pub open spec fn without_leading_slashes(s: Seq<char>) -> Seq<char>
    decreases s.len(),
{
    if s.len() > 0 && s[0] == '/' {
        without_leading_slashes(s.drop_first())
    } else {
        s
    }
}

/// The URL of `path` on a remote profile's coordinator: the base URL and the path
/// joined by exactly one `/`. A profile that is not remote is an error.
pub fn remote_url(profile: &Profile, path: &str) -> (r: Result<String, String>)
    ensures
        match profile {
            Profile::Remote { coordinator_url, .. } => r matches Ok(u) && u@
                == without_trailing_slashes(coordinator_url@) + "/"@ + without_leading_slashes(
                path@,
            ),
            Profile::Embedded => r matches Err(e) && e@ == "selected profile is not remote"@,
        },
{
    let base = match profile.remote() {
        Some((b, _)) => b,
        None => {
            return Err(String::from_str("selected profile is not remote"));
        },
    };
    let bv = chars_of(base);
    let mut hi: usize = bv.len();
    assert(bv@.subrange(0, hi as int) =~= bv@);
    while hi > 0 && bv[hi - 1] == '/'
        invariant
            hi <= bv@.len(),
            without_trailing_slashes(bv@) == without_trailing_slashes(bv@.subrange(0, hi as int)),
        decreases hi,
    {
        assert(bv@.subrange(0, hi as int).drop_last() =~= bv@.subrange(0, hi - 1));
        hi = hi - 1;
    }
    let pv = chars_of(path);
    let mut lo: usize = 0;
    assert(pv@.subrange(0, pv@.len() as int) =~= pv@);
    while lo < pv.len() && pv[lo] == '/'
        invariant
            lo <= pv@.len(),
            without_leading_slashes(pv@) == without_leading_slashes(
                pv@.subrange(lo as int, pv@.len() as int),
            ),
        decreases pv@.len() - lo,
    {
        assert(pv@.subrange(lo as int, pv@.len() as int).drop_first() =~= pv@.subrange(
            lo + 1,
            pv@.len() as int,
        ));
        lo = lo + 1;
    }
    let mut u = slice_chars(&bv, 0, hi);
    u.push('/');
    let tail = slice_chars(&pv, lo, pv.len());
    crate::text::push_all(&mut u, &tail);
    proof {
        reveal_strlit("/");
    }
    Ok(string_of(u.as_slice()))
}

/// `s` is in ascending order.
pub open spec fn ascending(s: Seq<u64>) -> bool {
    forall|i: int, j: int| 0 <= i <= j < s.len() ==> s[i] <= s[j]
}

/// The median of an ascending sequence: its middle value, or the mean of its two
/// middle values (rounded down) when its length is even.
pub open spec fn median_of_sorted(s: Seq<u64>) -> int {
    let n = s.len() as int;
    if n % 2 == 0 {
        (s[n / 2 - 1] + s[n / 2]) / 2
    } else {
        s[n / 2] as int
    }
}

/// `vals` sorted into ascending order.
pub fn sort_u64(vals: Vec<u64>) -> (r: Vec<u64>)
    ensures
        ascending(r@),
        r@.to_multiset() == vals@.to_multiset(),
{
    broadcast use vstd::seq_lib::group_to_multiset_ensures;
    let mut r: Vec<u64> = Vec::new();
    let mut i: usize = 0;
    while i < vals.len()
        invariant
            i <= vals@.len(),
            ascending(r@),
            r@.to_multiset() == vals@.subrange(0, i as int).to_multiset(),
        decreases vals@.len() - i,
    {
        let x = vals[i];
        let mut k: usize = 0;
        while k < r.len() && r[k] <= x
            invariant
                k <= r@.len(),
                forall|j: int| 0 <= j < k ==> r@[j] <= x,
            decreases r@.len() - k,
        {
            k = k + 1;
        }
        let ghost before = r@;
        r.insert(k, x);
        proof {
            assert(r@ =~= before.insert(k as int, x));
            assert forall|a: int, b: int| 0 <= a <= b < r@.len() implies r@[a] <= r@[b] by {
                if b < k {
                    assert(r@[a] == before[a] && r@[b] == before[b]);
                } else if b == k {
                    if a < k {
                        assert(r@[a] == before[a]);
                    }
                } else if a == k {
                    assert(r@[b] == before[b - 1]);
                    assert(k < before.len());
                    assert(!(before[k as int] <= x) || k == before.len());
                } else if a < k {
                    assert(r@[a] == before[a] && r@[b] == before[b - 1]);
                } else {
                    assert(r@[a] == before[a - 1] && r@[b] == before[b - 1]);
                }
            }
            assert(vals@.subrange(0, i + 1) =~= vals@.subrange(0, i as int).push(x));
            vstd::seq_lib::to_multiset_insert(before, k as int, x);
            vstd::seq_lib::to_multiset_build(vals@.subrange(0, i as int), x);
        }
        i = i + 1;
    }
    assert(vals@.subrange(0, vals@.len() as int) =~= vals@);
    r
}

/// The median of `vals`: the middle of the sorted values, or the mean (rounded
/// down) of the two middle ones when there is an even number of them.
pub fn median_u64(vals: Vec<u64>) -> (r: u64)
    requires
        vals@.len() > 0,
        forall|i: int, j: int|
            0 <= i < vals@.len() && 0 <= j < vals@.len() ==> vals@[i] + vals@[j] <= u64::MAX,
    ensures
        exists|s: Seq<u64>|
            ascending(s) && s.to_multiset() == vals@.to_multiset() && r == median_of_sorted(s),
{
    broadcast use vstd::seq_lib::group_to_multiset_ensures;
    let ghost v = vals@;
    let s = sort_u64(vals);
    let n = s.len();
    proof {
        assert(s@.len() == v.len()) by {
            assert(s@.to_multiset().len() == v.to_multiset().len());
        }
        assert forall|i: int| 0 <= i < s@.len() implies v.contains(#[trigger] s@[i]) by {
            assert(s@.to_multiset().count(s@[i]) > 0);
        }
    }
    if n % 2 == 0 {
        proof {
            let a = s@[(n / 2 - 1) as int];
            let b = s@[(n / 2) as int];
            assert(v.contains(a) && v.contains(b));
            let ia = choose|k: int| 0 <= k < v.len() && v[k] == a;
            let ib = choose|k: int| 0 <= k < v.len() && v[k] == b;
            assert(v[ia] + v[ib] <= u64::MAX);
        }
        let r = (s[n / 2 - 1] + s[n / 2]) / 2;
        assert(r == median_of_sorted(s@));
        r
    } else {
        s[n / 2]
    }
}

/// One benchmark line of the coordinator report:
/// `- <worker> / <model>: valid|stale (<age>s ago|no history)`.
pub open spec fn benchmark_line(b: BenchmarkFreshness) -> Seq<char> {
    "- "@ + b.worker_id.0@ + " / "@ + b.model_id.0@ + ": "@ + (if b.fingerprint_valid {
        "valid"@
    } else {
        "stale"@
    }) + " ("@ + match b.age_seconds {
        Some(s) => decimal(s as nat) + "s ago"@,
        None => "no history"@,
    } + ")\n"@
}

/// The benchmark lines of the report, in order.
pub open spec fn benchmark_lines(bs: Seq<BenchmarkFreshness>) -> Seq<char>
    decreases bs.len(),
{
    if bs.len() == 0 {
        Seq::empty()
    } else {
        benchmark_lines(bs.drop_last()) + benchmark_line(bs.last())
    }
}

/// The coordinator metrics report: worker and job counts, then each benchmark's
/// validity and age, or a line saying none are recorded.
pub open spec fn coordinator_report(m: CoordinatorMetricsSnapshot) -> Seq<char> {
    "Known workers: "@ + decimal(m.known_workers as nat) + "\n"@ + "Connected workers: "@ + decimal(
        m.connected_workers as nat,
    ) + "\n\n"@ + "Active jobs: "@ + decimal(m.active_jobs as nat) + "\n"@ + "Queued jobs: "@
        + decimal(m.queued_jobs as nat) + "\n"@ + "Jobs: "@ + decimal(m.successful_jobs as nat)
        + " successful, "@ + decimal(m.failed_jobs as nat) + " failed\n\n"@ + if m.benchmarks@.len()
        == 0 {
        "Benchmarks: none recorded\n"@
    } else {
        "Benchmarks:\n"@ + benchmark_lines(m.benchmarks@)
    }
}

fn push_decimal(out: &mut Vec<char>, n: u64)
    ensures
        final(out)@ == old(out)@ + decimal(n as nat),
{
    let d = decimal_chars(n);
    push_all(out, &d);
}

/// Renders the coordinator's metrics for the terminal. A benchmark with no history at
/// all reads differently from one whose latest record is stale.
pub fn format_coordinator_metrics(m: &CoordinatorMetricsSnapshot) -> (r: String)
    ensures
        r@ == coordinator_report(*m),
{
    let mut out: Vec<char> = Vec::new();
    push_str(&mut out, "Known workers: ");
    push_decimal(&mut out, m.known_workers as u64);
    push_str(&mut out, "\n");
    push_str(&mut out, "Connected workers: ");
    push_decimal(&mut out, m.connected_workers as u64);
    push_str(&mut out, "\n\n");
    push_str(&mut out, "Active jobs: ");
    push_decimal(&mut out, m.active_jobs as u64);
    push_str(&mut out, "\n");
    push_str(&mut out, "Queued jobs: ");
    push_decimal(&mut out, m.queued_jobs as u64);
    push_str(&mut out, "\n");
    push_str(&mut out, "Jobs: ");
    push_decimal(&mut out, m.successful_jobs);
    push_str(&mut out, " successful, ");
    push_decimal(&mut out, m.failed_jobs);
    push_str(&mut out, " failed\n\n");
    let ghost head = out@;
    if m.benchmarks.len() == 0 {
        push_str(&mut out, "Benchmarks: none recorded\n");
    } else {
        push_str(&mut out, "Benchmarks:\n");
        let ghost start = out@;
        let mut i: usize = 0;
        assert(m.benchmarks@.subrange(0, 0) =~= Seq::<BenchmarkFreshness>::empty());
        while i < m.benchmarks.len()
            invariant
                i <= m.benchmarks@.len(),
                out@ == start + benchmark_lines(m.benchmarks@.subrange(0, i as int)),
            decreases m.benchmarks@.len() - i,
        {
            let b = &m.benchmarks[i];
            let ghost before = out@;
            push_str(&mut out, "- ");
            push_str(&mut out, b.worker_id.0.as_str());
            push_str(&mut out, " / ");
            push_str(&mut out, b.model_id.0.as_str());
            push_str(&mut out, ": ");
            if b.fingerprint_valid {
                push_str(&mut out, "valid");
            } else {
                push_str(&mut out, "stale");
            }
            push_str(&mut out, " (");
            match b.age_seconds {
                Some(s) => {
                    push_decimal(&mut out, s);
                    push_str(&mut out, "s ago");
                },
                None => push_str(&mut out, "no history"),
            }
            push_str(&mut out, ")\n");
            assert(out@ =~= before + benchmark_line(*b));
            assert(m.benchmarks@.subrange(0, i + 1).drop_last() =~= m.benchmarks@.subrange(0, i as int));
            i = i + 1;
        }
        assert(m.benchmarks@.subrange(0, m.benchmarks@.len() as int) =~= m.benchmarks@);
    }
    string_of(out.as_slice())
}

} // verus!
