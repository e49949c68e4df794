//! The input of one run: target, request shape and traffic mode.
use vstd::prelude::*;

verus! {

/// The traffic shape of a run.
#[derive(Clone, Copy, Debug, PartialEq, Eq, Structural)]
pub enum TestMode {
    /// Every virtual user fires one request at the same moment.
    Burst,
    /// A fixed number of requests stays in flight for the run's duration.
    Constant,
    /// Concurrency grows in five equal steps up to the virtual-user count.
    RampUp,
    /// Concurrency doubles wave after wave until the target fails.
    StressTest,
}

/// The configuration of one run, shared read-only by every request.
#[derive(Clone, Debug)]
pub struct TestConfig {
    pub url: String,
    pub method: String,
    /// Header names and values; no name occurs twice.
    pub headers: Vec<(String, String)>,
    pub body: Option<String>,
    pub virtual_users: u32,
    pub duration_secs: Option<u32>,
    pub iterations: Option<u32>,
    pub mode: TestMode,
    pub timeout_ms: u64,
    pub think_time_ms: u64,
}

/// Header pairs as character sequences.
pub open spec fn header_views(hs: Seq<(String, String)>) -> Seq<(Seq<char>, Seq<char>)> {
    hs.map_values(|p: (String, String)| (p.0@, p.1@))
}

/// No header name occurs twice.
pub open spec fn distinct_names(hs: Seq<(Seq<char>, Seq<char>)>) -> bool {
    forall|a: int, b: int| 0 <= a < b < hs.len() ==> hs[a].0 != hs[b].0
}

/// `hs` without the pairs named `k`, in the same order.
pub open spec fn without_name(hs: Seq<(Seq<char>, Seq<char>)>, k: Seq<char>) -> Seq<(Seq<char>, Seq<char>)>
    decreases hs.len(),
{
    if hs.len() == 0 {
        hs
    } else {
        let rest = without_name(hs.drop_last(), k);
        if hs.last().0 == k {
            rest
        } else {
            rest.push(hs.last())
        }
    }
}

/// `hs` with `k` set to `v`: an earlier value of `k` is replaced.
pub open spec fn with_header(hs: Seq<(Seq<char>, Seq<char>)>, k: Seq<char>, v: Seq<char>) -> Seq<(Seq<char>, Seq<char>)> {
    without_name(hs, k).push((k, v))
}

proof fn lemma_without_name_distinct(hs: Seq<(Seq<char>, Seq<char>)>, k: Seq<char>)
    requires
        distinct_names(hs),
    ensures
        distinct_names(without_name(hs, k)),
        forall|j: int| 0 <= j < without_name(hs, k).len() ==> without_name(hs, k)[j].0 != k,
        forall|j: int| 0 <= j < without_name(hs, k).len() ==> hs.contains(#[trigger] without_name(hs, k)[j]),
    decreases hs.len(),
{
    if hs.len() > 0 {
        let init = hs.drop_last();
        assert(distinct_names(init));
        lemma_without_name_distinct(init, k);
        let rest = without_name(init, k);
        assert forall|j: int| 0 <= j < rest.len() implies hs.contains(#[trigger] rest[j]) by {
            assert(init.contains(rest[j]));
            let t = choose|t: int| 0 <= t < init.len() && init[t] == rest[j];
            assert(hs[t] == rest[j]);
        }
        if hs.last().0 != k {
            let out = rest.push(hs.last());
            assert forall|a: int, b: int| 0 <= a < b < out.len() implies out[a].0 != out[b].0 by {
                if b == out.len() - 1 {
                    assert(init.contains(out[a]));
                    let t = choose|t: int| 0 <= t < init.len() && init[t] == out[a];
                    assert(hs[t] == out[a]);
                    assert(hs[hs.len() - 1] == out[b]);
                }
            }
            assert forall|j: int| 0 <= j < out.len() implies hs.contains(#[trigger] out[j]) by {
                if j == out.len() - 1 {
                    assert(hs[hs.len() - 1] == out[j]);
                } else {
                    assert(out[j] == rest[j]);
                }
            }
        }
    }
}

/// Setting a header keeps the names distinct.
pub proof fn lemma_with_header_distinct(hs: Seq<(Seq<char>, Seq<char>)>, k: Seq<char>, v: Seq<char>)
    requires
        distinct_names(hs),
    ensures
        distinct_names(with_header(hs, k, v)),
{
    lemma_without_name_distinct(hs, k);
}

/// Sets header `name` to `value`, replacing an earlier value of that name.
pub fn set_header(headers: &mut Vec<(String, String)>, name: String, value: String)
    ensures
        header_views(final(headers)@) == with_header(header_views(old(headers)@), name@, value@),
        distinct_names(header_views(old(headers)@)) ==> distinct_names(header_views(final(headers)@)),
{
    let ghost hs = header_views(headers@);
    let mut kept: Vec<(String, String)> = Vec::new();
    let n = headers.len();
    let mut j: usize = 0;
    while j < n
        invariant
            n == headers@.len(),
            hs == header_views(headers@),
            j <= n,
            header_views(kept@) == without_name(hs.take(j as int), name@),
        decreases n - j,
    {
        assert(hs.take(j + 1).drop_last() == hs.take(j as int));
        let same = crate::text::same_text(headers[j].0.as_str(), name.as_str());
        if !same {
            let ghost before = kept@;
            let p = (headers[j].0.clone(), headers[j].1.clone());
            kept.push(p);
            assert(header_views(kept@) == header_views(before).push(hs[j as int]));
        }
        j = j + 1;
    }
    assert(hs.take(n as int) == hs);
    let ghost before = kept@;
    let ghost nv = name@;
    let ghost vv = value@;
    kept.push((name, value));
    assert(header_views(kept@) == header_views(before).push((nv, vv)));
    *headers = kept;
    proof {
        if distinct_names(hs) {
            lemma_with_header_distinct(hs, name@, value@);
        }
    }
}

} // verus!
