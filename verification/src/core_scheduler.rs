//! Thread placement on hosts with performance (P) and efficiency (E) cores:
//! inference work goes to P-cores, background work to E-cores.
use vstd::prelude::*;

verus! {

/// The host's core counts.
#[derive(Debug, Clone)]
pub struct CoreInfo {
    pub p_core_count: usize,
    pub e_core_count: usize,
    pub total_cores: usize,
}

impl CoreInfo {
    /// The id of the P-core that the `index`-th inference thread uses: P-cores are
    /// numbered first and used in turn.
    pub fn get_p_core_id(&self, index: usize) -> (r: usize)
        requires
            self.p_core_count > 0,
        ensures
            r == index % self.p_core_count,
            r < self.p_core_count,
    {
        index % self.p_core_count
    }

    /// The id of the E-core that the `index`-th background thread uses: E-cores are
    /// numbered after the P-cores and used in turn.
    pub fn get_e_core_id(&self, index: usize) -> (r: usize)
        requires
            self.e_core_count > 0,
            self.p_core_count + self.e_core_count <= usize::MAX,
        ensures
            r == self.p_core_count + index % self.e_core_count,
            self.p_core_count <= r < self.p_core_count + self.e_core_count,
    {
        self.p_core_count + (index % self.e_core_count)
    }
}

/// The larger of `a` and `b`.
pub open spec fn at_least(a: int, b: int) -> int {
    if a < b {
        b
    } else {
        a
    }
}

/// Thread pool sizes `(inference, background)` for a host whose available
/// parallelism is `available` (four when it cannot be told): three quarters of the
/// cores for inference and a quarter for background work, each at least one.
pub fn get_thread_pool_sizes(available: Option<usize>) -> (r: (usize, usize))
    requires
        available matches Some(c) ==> c * 3 <= usize::MAX,
    ensures
        ({
            let cores: int = match available {
                Some(c) => c as int,
                None => 4,
            };
            r.0 == at_least((cores * 3) / 4, 1) && r.1 == at_least(cores / 4, 1)
        }),
        r.0 >= 1,
        r.1 >= 1,
{
    let cores: usize = match available {
        Some(c) => c,
        None => 4,
    };
    let inference = if (cores * 3) / 4 > 1 {
        (cores * 3) / 4
    } else {
        1
    };
    let background = if cores / 4 > 1 {
        cores / 4
    } else {
        1
    };
    (inference, background)
}

/// The core layout a host reports as its P-core and E-core counts: none when it
/// reports no P-cores.
pub fn core_info_from_counts(p_cores: usize, e_cores: usize) -> (r: Option<CoreInfo>)
    requires
        p_cores + e_cores <= usize::MAX,
    ensures
        p_cores == 0 ==> r is None,
        p_cores > 0 ==> r == Some(
            CoreInfo { p_core_count: p_cores, e_core_count: e_cores, total_cores: (p_cores + e_cores) as usize },
        ),
{
    if p_cores > 0 {
        Some(CoreInfo { p_core_count: p_cores, e_core_count: e_cores, total_cores: p_cores + e_cores })
    } else {
        None
    }
}

/// Thread pool sizes on a host with P- and E-cores, from its detected layout: as
/// `pool_sizes_for_cores` says when there is one, four and two when there is none.
/// Both are at least one whenever the layout has a P-core.
pub fn apple_thread_pool_sizes(info: Option<CoreInfo>) -> (r: (usize, usize))
    ensures
        match info {
            Some(c) => r.0 == c.p_core_count && r.1 == at_least((c.e_core_count / 2) as int, 1),
            None => r == (4usize, 2usize),
        },
        (info matches Some(c) ==> c.p_core_count > 0) ==> r.0 >= 1 && r.1 >= 1,
{
    match info {
        Some(c) => pool_sizes_for_cores(&c),
        None => (4, 2),
    }
}

/// Thread pool sizes `(inference, background)` on a host with P- and E-cores: every
/// P-core for inference, half the E-cores (at least one) for background work.
pub fn pool_sizes_for_cores(info: &CoreInfo) -> (r: (usize, usize))
    ensures
        r.0 == info.p_core_count,
        r.1 == at_least((info.e_core_count / 2) as int, 1),
{
    let background = if info.e_core_count / 2 > 1 {
        info.e_core_count / 2
    } else {
        1
    };
    (info.p_core_count, background)
}

/// The scheduling advice on hosts without P- and E-cores.
pub fn get_scheduling_recommendation() -> (r: String)
    ensures
        r@ == "Core scheduling only optimized on Apple Silicon"@,
{
    String::from_str("Core scheduling only optimized on Apple Silicon")
}

} // verus!
