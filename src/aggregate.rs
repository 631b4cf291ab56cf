use vstd::prelude::*;

use crate::timing::BenchmarkResult;

verus! {

/// The largest value of a `u64`.
pub open spec fn u64_max() -> int {
    0xFFFF_FFFF_FFFF_FFFFint
}

/// The sum of `f` over the results of `s`.
pub open spec fn sum_of(s: Seq<BenchmarkResult>, f: spec_fn(BenchmarkResult) -> int) -> int
    decreases s.len(),
{
    if s.len() == 0 {
        0
    } else {
        sum_of(s.drop_last(), f) + f(s.last())
    }
}

/// `sum / n`, and zero when there is nothing to divide by.
pub open spec fn mean(sum: int, n: int) -> int {
    if n <= 0 {
        0
    } else {
        sum / n
    }
}

/// The mean of `f` over the results of `s`, zero for no results.
pub open spec fn avg_of(s: Seq<BenchmarkResult>, f: spec_fn(BenchmarkResult) -> int) -> int {
    mean(sum_of(s, f), s.len() as int)
}

/// The mean of `value` over the results for which `present` is one, or
/// nothing when no result carries a value.
pub open spec fn avg_present(
    s: Seq<BenchmarkResult>,
    value: spec_fn(BenchmarkResult) -> int,
    present: spec_fn(BenchmarkResult) -> int,
) -> Option<int> {
    if sum_of(s, present) == 0 {
        None
    } else {
        Some(sum_of(s, value) / sum_of(s, present))
    }
}

pub open spec fn total_of() -> spec_fn(BenchmarkResult) -> int {
    |r: BenchmarkResult| r.timing.total as int
}

pub open spec fn tcp_connect_of() -> spec_fn(BenchmarkResult) -> int {
    |r: BenchmarkResult| r.timing.tcp_connect as int
}

pub open spec fn first_byte_of() -> spec_fn(BenchmarkResult) -> int {
    |r: BenchmarkResult| r.timing.time_to_first_byte as int
}

pub open spec fn download_of() -> spec_fn(BenchmarkResult) -> int {
    |r: BenchmarkResult| r.timing.download as int
}

pub open spec fn dns_lookup_of() -> spec_fn(BenchmarkResult) -> int {
    |r: BenchmarkResult|
        match r.timing.dns_lookup {
            Some(d) => d as int,
            None => 0,
        }
}

pub open spec fn has_dns_lookup() -> spec_fn(BenchmarkResult) -> int {
    |r: BenchmarkResult|
        if r.timing.dns_lookup.is_some() {
            1
        } else {
            0
        }
}

pub open spec fn tls_handshake_of() -> spec_fn(BenchmarkResult) -> int {
    |r: BenchmarkResult|
        match r.timing.tls_handshake {
            Some(d) => d as int,
            None => 0,
        }
}

pub open spec fn has_tls_handshake() -> spec_fn(BenchmarkResult) -> int {
    |r: BenchmarkResult|
        if r.timing.tls_handshake.is_some() {
            1
        } else {
            0
        }
}

pub open spec fn body_size_of() -> spec_fn(BenchmarkResult) -> int {
    |r: BenchmarkResult| r.body_size as int
}

pub open spec fn is_success() -> spec_fn(BenchmarkResult) -> int {
    |r: BenchmarkResult|
        if r.status == 200 {
            1
        } else {
            0
        }
}

pub open spec fn as_int(o: Option<u64>) -> Option<int> {
    match o {
        Some(v) => Some(v as int),
        None => None,
    }
}

/// A status code that some result of `s` carries.
pub open spec fn has_status(s: Seq<BenchmarkResult>, code: u16) -> bool {
    exists|j: int| 0 <= j < s.len() && s[j].status == code
}

pub open spec fn strictly_increasing(v: Seq<u16>) -> bool {
    forall|a: int, b: int| 0 <= a < b < v.len() ==> v[a] < v[b]
}

/// Summary statistics of one batch; durations in nanoseconds.
#[derive(Clone, Debug, PartialEq, Eq)]
pub struct AggregateStats {
    /// The number of attempts that were asked for.
    pub requested: u64,
    /// The number of attempts that completed.
    pub completed: usize,
    /// The completed attempts with status 200.
    pub successful: usize,
    pub avg_total: u64,
    pub avg_tcp_connect: u64,
    pub avg_time_to_first_byte: u64,
    pub avg_download: u64,
    /// Over the results that carry a DNS lookup time; none if no result does.
    pub avg_dns_lookup: Option<u64>,
    /// Over the results that carry a TLS handshake time; none if no result does.
    pub avg_tls_handshake: Option<u64>,
    /// The sum of the body sizes.
    pub total_bytes: u128,
    /// The distinct status codes, in increasing order.
    pub status_codes: Vec<u16>,
}

proof fn lemma_sum_step(s: Seq<BenchmarkResult>, i: int, f: spec_fn(BenchmarkResult) -> int)
    requires
        0 <= i < s.len(),
    ensures
        sum_of(s.take(i + 1), f) == sum_of(s.take(i), f) + f(s[i]),
{
    assert(s.take(i + 1).drop_last() =~= s.take(i));
}

proof fn lemma_mean_fits(sum: int, n: int)
    requires
        n > 0,
        0 <= sum <= n * u64_max(),
    ensures
        0 <= sum / n <= u64_max(),
{
    assert(0 <= sum / n <= u64_max()) by (nonlinear_arith)
        requires
            n > 0,
            0 <= sum <= n * u64_max(),
    ;
}

/// `sum / n` for sums of at most `n` values that each fit in a `u64`.
fn mean_u64(sum: u128, n: usize) -> (r: u64)
    requires
        sum <= n as int * u64_max(),
    ensures
        r == mean(sum as int, n as int),
{
    if n == 0 {
        0
    } else {
        proof {
            lemma_mean_fits(sum as int, n as int);
        }
        (sum / (n as u128)) as u64
    }
}

/// Adds `code` to the strictly increasing `codes`, unless it is there.
fn insert_code(codes: &mut Vec<u16>, code: u16)
    requires
        strictly_increasing(old(codes)@),
    ensures
        strictly_increasing(final(codes)@),
        forall|x: u16| final(codes)@.contains(x) <==> (old(codes)@.contains(x) || x == code),
{
    let mut k: usize = 0;
    while k < codes.len()
        invariant
            codes@ == old(codes)@,
            strictly_increasing(codes@),
            0 <= k <= codes@.len(),
            forall|j: int| 0 <= j < k ==> codes@[j] < code,
        ensures
            0 <= k <= codes@.len(),
            k == codes@.len() || codes@[k as int] >= code,
        decreases codes@.len() - k,
    {
        if codes[k] >= code {
            break;
        }
        k += 1;
    }
    if k < codes.len() && codes[k] == code {
        assert(codes@.contains(code));
        return;
    }
    let ghost before = codes@;
    codes.insert(k, code);
    proof {
        assert(forall|j: int| k <= j < before.len() ==> before[j] > code);
        assert(codes@ =~= before.subrange(0, k as int).push(code) + before.subrange(
            k as int,
            before.len() as int,
        ));
        assert forall|x: u16| codes@.contains(x) <==> (before.contains(x) || x == code) by {
            if before.contains(x) {
                let j = choose|j: int| 0 <= j < before.len() && before[j] == x;
                if j < k {
                    assert(codes@[j] == x);
                } else {
                    assert(codes@[j + 1] == x);
                }
            }
            if x == code {
                assert(codes@[k as int] == x);
            }
            if codes@.contains(x) {
                let j = choose|j: int| 0 <= j < codes@.len() && codes@[j] == x;
                if j < k {
                    assert(before[j] == x);
                } else if j > k {
                    assert(before[j - 1] == x);
                }
            }
        }
        assert(strictly_increasing(codes@));
        assert(forall|x: u16| codes@.contains(x) <==> (old(codes)@.contains(x) || x == code));
    }
}

/// Reduces the completed results of a batch of `requested` attempts to
/// summary statistics.  The averages are truncated to whole nanoseconds.
pub fn aggregate(results: &Vec<BenchmarkResult>, requested: u64) -> (r: AggregateStats)
    ensures
        r.requested == requested,
        r.completed == results@.len(),
        r.successful == sum_of(results@, is_success()),
        r.avg_total == avg_of(results@, total_of()),
        r.avg_tcp_connect == avg_of(results@, tcp_connect_of()),
        r.avg_time_to_first_byte == avg_of(results@, first_byte_of()),
        r.avg_download == avg_of(results@, download_of()),
        as_int(r.avg_dns_lookup) == avg_present(
            results@,
            dns_lookup_of(),
            has_dns_lookup(),
        ),
        as_int(r.avg_tls_handshake) == avg_present(
            results@,
            tls_handshake_of(),
            has_tls_handshake(),
        ),
        r.total_bytes == sum_of(results@, body_size_of()),
        strictly_increasing(r.status_codes@),
        forall|c: u16| r.status_codes@.contains(c) <==> has_status(results@, c),
        results@.len() == 0 ==> {
            &&& r.avg_total == 0
            &&& r.avg_tcp_connect == 0
            &&& r.avg_time_to_first_byte == 0
            &&& r.avg_download == 0
            &&& r.avg_dns_lookup.is_none()
            &&& r.avg_tls_handshake.is_none()
            &&& r.total_bytes == 0
            &&& r.status_codes@.len() == 0
        },
{
    let ghost s = results@;
    let n = results.len();
    let mut successful: usize = 0;
    let mut total: u128 = 0;
    let mut tcp_connect: u128 = 0;
    let mut first_byte: u128 = 0;
    let mut download: u128 = 0;
    let mut dns_sum: u128 = 0;
    let mut dns_count: usize = 0;
    let mut tls_sum: u128 = 0;
    let mut tls_count: usize = 0;
    let mut bytes: u128 = 0;
    let mut codes: Vec<u16> = Vec::new();
    let mut i: usize = 0;
    proof {
        assert(s.take(0) =~= Seq::<BenchmarkResult>::empty());
    }
    while i < n
        invariant
            s == results@,
            n == s.len(),
            0 <= i <= n,
            successful == sum_of(s.take(i as int), is_success()),
            total == sum_of(s.take(i as int), total_of()),
            tcp_connect == sum_of(s.take(i as int), tcp_connect_of()),
            first_byte == sum_of(s.take(i as int), first_byte_of()),
            download == sum_of(s.take(i as int), download_of()),
            dns_sum == sum_of(s.take(i as int), dns_lookup_of()),
            dns_count == sum_of(s.take(i as int), has_dns_lookup()),
            tls_sum == sum_of(s.take(i as int), tls_handshake_of()),
            tls_count == sum_of(s.take(i as int), has_tls_handshake()),
            bytes == sum_of(s.take(i as int), body_size_of()),
            successful <= i,
            total <= i * u64_max(),
            tcp_connect <= i * u64_max(),
            first_byte <= i * u64_max(),
            download <= i * u64_max(),
            dns_sum <= dns_count * u64_max(),
            dns_count <= i,
            tls_sum <= tls_count * u64_max(),
            tls_count <= i,
            bytes <= i * u64_max(),
            strictly_increasing(codes@),
            forall|c: u16| codes@.contains(c) <==> has_status(s.take(i as int), c),
        decreases n - i,
    {
        let r = &results[i];
        proof {
            lemma_sum_step(s, i as int, is_success());
            lemma_sum_step(s, i as int, total_of());
            lemma_sum_step(s, i as int, tcp_connect_of());
            lemma_sum_step(s, i as int, first_byte_of());
            lemma_sum_step(s, i as int, download_of());
            lemma_sum_step(s, i as int, dns_lookup_of());
            lemma_sum_step(s, i as int, has_dns_lookup());
            lemma_sum_step(s, i as int, tls_handshake_of());
            lemma_sum_step(s, i as int, has_tls_handshake());
            lemma_sum_step(s, i as int, body_size_of());
        }
        if r.status == 200 {
            successful += 1;
        }
        total += r.timing.total as u128;
        tcp_connect += r.timing.tcp_connect as u128;
        first_byte += r.timing.time_to_first_byte as u128;
        download += r.timing.download as u128;
        match r.timing.dns_lookup {
            Some(d) => {
                dns_sum += d as u128;
                dns_count += 1;
            },
            None => {},
        }
        match r.timing.tls_handshake {
            Some(d) => {
                tls_sum += d as u128;
                tls_count += 1;
            },
            None => {},
        }
        bytes += r.body_size as u128;
        let ghost prev = codes@;
        insert_code(&mut codes, r.status);
        proof {
            let t = s.take(i as int + 1);
            assert forall|c: u16| codes@.contains(c) <==> has_status(t, c) by {
                if has_status(s.take(i as int), c) {
                    let j = choose|j: int| 0 <= j < i && s.take(i as int)[j].status == c;
                    assert(t[j].status == c);
                }
                if c == s[i as int].status {
                    assert(t[i as int].status == c);
                }
                if has_status(t, c) {
                    let j = choose|j: int| 0 <= j < i + 1 && t[j].status == c;
                    if j < i {
                        assert(s.take(i as int)[j].status == c);
                    }
                }
            }
        }
        i += 1;
    }
    proof {
        assert(s.take(n as int) =~= s);
        if n == 0 && codes@.len() > 0 {
            assert(codes@.contains(codes@[0]));
        }
    }
    let avg_dns_lookup = if dns_count == 0 {
        None
    } else {
        Some(mean_u64(dns_sum, dns_count))
    };
    let avg_tls_handshake = if tls_count == 0 {
        None
    } else {
        Some(mean_u64(tls_sum, tls_count))
    };
    AggregateStats {
        requested,
        completed: n,
        successful,
        avg_total: mean_u64(total, n),
        avg_tcp_connect: mean_u64(tcp_connect, n),
        avg_time_to_first_byte: mean_u64(first_byte, n),
        avg_download: mean_u64(download, n),
        avg_dns_lookup,
        avg_tls_handshake,
        total_bytes: bytes,
        status_codes: codes,
    }
}

/// `n` copies of `r`.
pub open spec fn copies(r: BenchmarkResult, n: nat) -> Seq<BenchmarkResult> {
    Seq::new(n, |i: int| r)
}

proof fn lemma_sum_of_copies(r: BenchmarkResult, n: nat, f: spec_fn(BenchmarkResult) -> int)
    ensures
        sum_of(copies(r, n), f) == n * f(r),
    decreases n,
{
    if n > 0 {
        assert(copies(r, n).drop_last() =~= copies(r, (n - 1) as nat));
        assert(copies(r, n).last() == r);
        lemma_sum_of_copies(r, (n - 1) as nat, f);
        let m = (n - 1) as nat;
        assert(n * f(r) == m * f(r) + f(r)) by (nonlinear_arith)
            requires
                m == n - 1,
        ;
        assert(sum_of(copies(r, n), f) == sum_of(copies(r, m), f) + f(r));
    } else {
        assert(copies(r, n).len() == 0);
        assert(n * f(r) == 0);
    }
}

proof fn lemma_mean_of_copies(r: BenchmarkResult, n: nat, f: spec_fn(BenchmarkResult) -> int)
    requires
        n > 0,
    ensures
        avg_of(copies(r, n), f) == f(r),
{
    lemma_sum_of_copies(r, n, f);
    let x = f(r);
    assert((n * x) / (n as int) == x) by (nonlinear_arith)
        requires
            n > 0,
    ;
}

/// Averaging `n` results that are all equal to `r` gives back `r`'s value
/// for every timing field: the mean is exact under repetition.
pub proof fn lemma_average_of_identical(r: BenchmarkResult, n: nat)
    requires
        n > 0,
    ensures
        avg_of(copies(r, n), total_of()) == r.timing.total,
        avg_of(copies(r, n), tcp_connect_of()) == r.timing.tcp_connect,
        avg_of(copies(r, n), first_byte_of()) == r.timing.time_to_first_byte,
        avg_of(copies(r, n), download_of()) == r.timing.download,
        avg_present(copies(r, n), dns_lookup_of(), has_dns_lookup()) == as_int(
            r.timing.dns_lookup,
        ),
        avg_present(copies(r, n), tls_handshake_of(), has_tls_handshake()) == as_int(
            r.timing.tls_handshake,
        ),
{
    lemma_mean_of_copies(r, n, total_of());
    lemma_mean_of_copies(r, n, tcp_connect_of());
    lemma_mean_of_copies(r, n, first_byte_of());
    lemma_mean_of_copies(r, n, download_of());
    lemma_sum_of_copies(r, n, dns_lookup_of());
    lemma_sum_of_copies(r, n, has_dns_lookup());
    lemma_sum_of_copies(r, n, tls_handshake_of());
    lemma_sum_of_copies(r, n, has_tls_handshake());
    lemma_mean_of_copies(r, n, dns_lookup_of());
    lemma_mean_of_copies(r, n, tls_handshake_of());
}

/// Aggregating no results is defined: every average is zero or absent, no
/// bytes are counted and no status code is seen.
pub proof fn lemma_aggregate_empty()
    ensures
        avg_of(Seq::empty(), total_of()) == 0,
        avg_of(Seq::empty(), tcp_connect_of()) == 0,
        avg_of(Seq::empty(), first_byte_of()) == 0,
        avg_of(Seq::empty(), download_of()) == 0,
        avg_present(Seq::empty(), dns_lookup_of(), has_dns_lookup()).is_none(),
        avg_present(Seq::empty(), tls_handshake_of(), has_tls_handshake()).is_none(),
        sum_of(Seq::empty(), body_size_of()) == 0,
        sum_of(Seq::empty(), is_success()) == 0,
        forall|c: u16| !has_status(Seq::empty(), c),
{
}

proof fn lemma_sum_remove(s: Seq<BenchmarkResult>, i: int, f: spec_fn(BenchmarkResult) -> int)
    requires
        0 <= i < s.len(),
    ensures
        sum_of(s, f) == sum_of(s.remove(i), f) + f(s[i]),
    decreases s.len(),
{
    if i == s.len() - 1 {
        assert(s.remove(i) =~= s.drop_last());
    } else {
        let t = s.drop_last();
        assert(t.remove(i) =~= s.remove(i).drop_last());
        assert(s.remove(i).last() == s.last());
        lemma_sum_remove(t, i, f);
    }
}

proof fn lemma_sum_permuted(
    s1: Seq<BenchmarkResult>,
    s2: Seq<BenchmarkResult>,
    f: spec_fn(BenchmarkResult) -> int,
)
    requires
        s1.to_multiset() == s2.to_multiset(),
    ensures
        sum_of(s1, f) == sum_of(s2, f),
    decreases s1.len(),
{
    s1.to_multiset_ensures();
    s2.to_multiset_ensures();
    if s1.len() == 0 {
    } else {
        let x = s1.last();
        let t1 = s1.drop_last();
        assert(t1.push(x) =~= s1);
        t1.to_multiset_ensures();
        assert(s1.to_multiset().count(x) > 0);
        assert(s2.contains(x));
        let i = choose|i: int| 0 <= i < s2.len() && s2[i] == x;
        let t2 = s2.remove(i);
        assert(t1.to_multiset() =~= t2.to_multiset());
        lemma_sum_permuted(t1, t2, f);
        lemma_sum_remove(s2, i, f);
    }
}

/// The aggregate does not depend on the order of the results: any
/// rearrangement gives the same count, sums, averages and status codes.
pub proof fn lemma_aggregate_order_independent(s1: Seq<BenchmarkResult>, s2: Seq<BenchmarkResult>)
    requires
        s1.to_multiset() == s2.to_multiset(),
    ensures
        s1.len() == s2.len(),
        forall|f: spec_fn(BenchmarkResult) -> int| #[trigger] sum_of(s1, f) == sum_of(s2, f),
        forall|f: spec_fn(BenchmarkResult) -> int| #[trigger] avg_of(s1, f) == avg_of(s2, f),
        forall|
            v: spec_fn(BenchmarkResult) -> int,
            p: spec_fn(BenchmarkResult) -> int,
        | #[trigger] avg_present(s1, v, p) == avg_present(s2, v, p),
        forall|c: u16| has_status(s1, c) <==> has_status(s2, c),
{
    s1.to_multiset_ensures();
    s2.to_multiset_ensures();
    assert forall|f: spec_fn(BenchmarkResult) -> int| #[trigger] sum_of(s1, f) == sum_of(s2, f) by {
        lemma_sum_permuted(s1, s2, f);
    }
    assert forall|f: spec_fn(BenchmarkResult) -> int| #[trigger] avg_of(s1, f) == avg_of(s2, f) by {
        lemma_sum_permuted(s1, s2, f);
    }
    assert forall|v: spec_fn(BenchmarkResult) -> int, p: spec_fn(BenchmarkResult) -> int| #[trigger]
        avg_present(s1, v, p) == avg_present(s2, v, p) by {
        lemma_sum_permuted(s1, s2, v);
        lemma_sum_permuted(s1, s2, p);
    }
    assert forall|c: u16| has_status(s1, c) <==> has_status(s2, c) by {
        if has_status(s1, c) {
            let j = choose|j: int| 0 <= j < s1.len() && s1[j].status == c;
            assert(s1.contains(s1[j]));
            assert(s1.to_multiset().count(s1[j]) > 0);
            assert(s2.to_multiset().count(s1[j]) > 0);
            assert(s2.contains(s1[j]));
        }
        if has_status(s2, c) {
            let j = choose|j: int| 0 <= j < s2.len() && s2[j].status == c;
            assert(s2.contains(s2[j]));
            assert(s2.to_multiset().count(s2[j]) > 0);
            assert(s1.to_multiset().count(s2[j]) > 0);
            assert(s1.contains(s2[j]));
        }
    }
}

} // verus!
